//! The world: the fixed-capacity entity pool, the random stream, the score
//! and the sound state, advanced one frame at a time by `tick`. Slot index
//! order doubles as paint order, and disjoint index ranges are pre-seeded
//! per kind at construction, so spawning only ever flips a matching free
//! slot to active.

use vstd::prelude::*;
use crate::entities::{
    Entity, blank_entity, collides, TYP_PLAYER, TYP_ENEMY, TYP_BULLET, TYP_STAR, TYP_DIGIT,
};
use crate::seed_rand::{Xorshift128pState, xs_step, xs_out, xs_iter, xs_seeded, range_map};
use crate::sound::Sound;

verus! {

/// How many slots the pool holds. Spawns past this capacity are silently
/// skipped; the pool itself never grows.
pub const POOL_SIZE: usize = 100;

/// Display height in pixels.
pub const DISP_H: i16 = 64i16;

/// Display width in pixels.
pub const DISP_W: i16 = 128i16;

/// One frame of sampled input: each axis already reduced to -1, 0 or 1,
/// and the fire button with its level and its changed-since-last-frame bit.
#[derive(Copy, Clone)]
pub struct PlayerInput {
    pub x_move: i16,
    pub y_move: i16,
    pub a_btn_on: bool,
    pub a_btn_changed: bool,
}

/// The one-shot "clear wave" signal. The surrounding program raises it
/// (on the game's hardware, from an interrupt handler); `tick` consumes it
/// through the single take-and-clear step `take`.
pub struct ClearWave {
    pub pending: bool,
}

impl ClearWave {
    pub fn new() -> (w: ClearWave)
        ensures
            !w.pending,
    {
        ClearWave { pending: false }
    }

    /// Raise the signal; it stays up until the next take.
    pub fn raise(&mut self)
        ensures
            final(self).pending,
    {
        self.pending = true;
    }

    /// Read and clear in one step.
    pub fn take(&mut self) -> (was: bool)
        ensures
            was == old(self).pending,
            !final(self).pending,
    {
        let was = self.pending;
        self.pending = false;
        was
    }
}

/// Coordinate and size bounds every active slot keeps: loose enough for
/// everything the simulation does, tight enough that no position arithmetic
/// can overflow and every sprite row index stays inside the table.
pub open spec fn pos_ok(e: Entity) -> bool {
    &&& -64 <= e.x <= 160
    &&& -64 <= e.y <= 160
    &&& 0 <= e.w <= 16
    &&& 0 <= e.h <= 16
    &&& e.sprite_y as int + e.h as int <= 64
}

/// What one slot may hold, given its index: each kind lives in its
/// pre-seeded index range with its fixed box size, slot 51 always holds the
/// live player, and every active slot keeps `pos_ok`.
pub open spec fn slot_wf(e: Entity, i: int) -> bool {
    &&& (e.typ == TYP_BULLET ==> 1 <= i < 5 && e.w == 2 && e.h == 2 && e.sprite_y == 53)
    &&& (e.typ == TYP_ENEMY ==> 10 <= i < 40 && e.w == 11 && e.h == 8 && e.sprite_y == 24)
    &&& (e.typ == TYP_STAR ==> 40 <= i < 50 && e.w == 2 && e.h == 1 && (e.speed == 1 || e.speed
        == 2) && e.sprite_y == 32)
    &&& (e.typ == TYP_DIGIT ==> 60 <= i < 70 && e.w == 8 && e.h == 8)
    &&& (i == 51 ==> e.typ == TYP_PLAYER && !e.del)
    &&& (e.typ == TYP_PLAYER && !e.del ==> i == 51 && e.w == 12 && e.h == 10 && 0 <= e.x <= 116
        && 0 <= e.y <= 54 && (e.sprite_y == 33 || e.sprite_y == 43 || e.sprite_y == 53))
    &&& (!e.del ==> pos_ok(e))
}

/// Ten to the `k`.
pub open spec fn pow10(k: nat) -> nat
    decreases k,
{
    if k == 0 {
        1
    } else {
        10 * pow10((k - 1) as nat)
    }
}

/// The `k`-th decimal digit of `n`, least significant first.
pub open spec fn digit_at(n: u32, k: nat) -> int {
    ((n as nat / pow10(k)) % 10) as int
}

/// How many decimal digits `n` has; 0 counts as one digit.
pub open spec fn ndigits(n: nat) -> nat
    decreases n,
{
    if n < 10 {
        1
    } else {
        1 + ndigits(n / 10)
    }
}

/// How many digit slots a score refresh activates: one per decimal digit,
/// capped at the nine slots the display owns.
pub open spec fn digits_used(n: u32) -> nat {
    if ndigits(n as nat) <= 9 {
        ndigits(n as nat)
    } else {
        9
    }
}

/// A digit slot after the clearing half of a refresh: freed, re-tagged as a
/// digit of the standard size, parked at row 15 with the blank glyph.
pub open spec fn digit_cleared(e: Entity) -> Entity {
    Entity { typ: TYP_DIGIT, w: 8, h: 8, y: 15, del: true, sprite_x: 0, sprite_y: 0, ..e }
}

/// The digit slots after a refresh with anchor `(x, y)` and value `n`: the
/// first `digits_used(n)` slots show the digits least-significant-first,
/// each one glyph pitch further left; the rest stay free.
pub open spec fn digit_slots_show(s: Seq<Entity>, x: i16, y: i16, n: u32) -> bool {
    forall|k: int|
        0 <= k < 10 ==> {
            let e = #[trigger] s[60 + k];
            &&& e.typ == TYP_DIGIT
            &&& e.w == 8
            &&& e.h == 8
            &&& if k < digits_used(n) {
                &&& !e.del
                &&& e.x as int == x as int - 8 * k
                &&& e.y == y
                &&& e.sprite_x as int == 8 * digit_at(n, k as nat)
                &&& e.sprite_y as int == 8 * (digit_at(n, k as nat) / 4)
            } else {
                e.del
            }
        }
}

/// One digit slot after a refresh with value `n`: the slot is first put in
/// its cleared shape (which keeps its parked position and animation
/// fields), and the first `digits_used(n)` slots are then re-activated
/// onto the anchor. Everything the slot ends with is fixed here, so a
/// repeated identical refresh reproduces the identical state.
pub open spec fn digit_refreshed(e: Entity, k: int, x: i16, y: i16, n: u32) -> Entity {
    let c = digit_cleared(e);
    if k < digits_used(n) {
        Entity {
            x: (x - 8 * k) as i16,
            y: y,
            del: false,
            sprite_x: (8 * digit_at(n, k as nat)) as u8,
            sprite_y: (8 * (digit_at(n, k as nat) / 4)) as u8,
            ..c
        }
    } else {
        c
    }
}

/// The whole pool after a score refresh: the ten digit slots take their
/// `digit_refreshed` form, everything else stands.
pub open spec fn digits_refresh(s: Seq<Entity>, x: i16, y: i16, n: u32) -> Seq<Entity> {
    Seq::new(
        s.len(),
        |i: int|
            if 60 <= i < 70 {
                digit_refreshed(s[i], i - 60, x, y, n)
            } else {
                s[i]
            },
    )
}

proof fn lemma_ndigits_pos(n: nat)
    ensures
        ndigits(n) >= 1,
    decreases n,
{
    if n >= 10 {
        lemma_ndigits_pos(n / 10);
    }
}

proof fn lemma_pow10_pos(k: nat)
    ensures
        pow10(k) >= 1,
        k >= 1 ==> pow10(k) >= 10,
    decreases k,
{
    if k > 0 {
        lemma_pow10_pos((k - 1) as nat);
    }
}

/// Stripping one more digit: dividing by ten once more is dividing by the
/// next power of ten.
proof fn lemma_div_pow10_step(n: nat, k: nat)
    ensures
        (n / pow10(k)) / 10 == n / pow10((k + 1) as nat),
{
    lemma_pow10_pos(k);
    vstd::arithmetic::div_mod::lemma_div_denominator(n as int, pow10(k) as int, 10);
}

/// `n` runs out after exactly `ndigits(n)` strips: the quotient by
/// `pow10(k)` is zero exactly when `k` reaches the digit count.
proof fn lemma_ndigits_pow10(n: nat, k: nat)
    requires
        k >= 1,
    ensures
        (n / pow10(k) == 0) <==> (ndigits(n) <= k),
    decreases k,
{
    lemma_pow10_pos(k);
    lemma_ndigits_pos(n);
    if k == 1 {
        assert(pow10(1) == 10 * pow10(0));
        if n < 10 {
            vstd::arithmetic::div_mod::lemma_basic_div(n as int, 10);
        } else {
            vstd::arithmetic::div_mod::lemma_div_non_zero(n as int, 10);
            lemma_ndigits_pos(n / 10);
        }
    } else {
        lemma_pow10_pos((k - 1) as nat);
        if n < 10 {
            vstd::arithmetic::div_mod::lemma_basic_div(n as int, pow10(k) as int);
        } else {
            vstd::arithmetic::div_mod::lemma_div_denominator(n as int, 10, pow10((k - 1) as nat) as int);
            assert(pow10(k) == 10 * pow10((k - 1) as nat));
            lemma_ndigits_pow10(n / 10, (k - 1) as nat);
        }
    }
}

/// A larger number never has fewer digits.
proof fn lemma_ndigits_monotone(n1: nat, n2: nat)
    requires
        n1 <= n2,
    ensures
        ndigits(n1) <= ndigits(n2),
    decreases n2,
{
    lemma_ndigits_pos(n2);
    if n1 >= 10 {
        vstd::arithmetic::div_mod::lemma_div_is_ordered(n1 as int, n2 as int, 10);
        lemma_ndigits_monotone(n1 / 10, n2 / 10);
    }
}

/// The display never needs fewer slots for a larger value.
proof fn lemma_digits_used_monotone(n1: u32, n2: u32)
    requires
        n1 <= n2,
    ensures
        digits_used(n1) <= digits_used(n2),
{
    lemma_ndigits_monotone(n1 as nat, n2 as nat);
}

/// Refreshing a digit slot twice in a row, the second time with a value of
/// at least as many digits, leaves exactly the state of the second refresh
/// alone: the clearing half is idempotent and the placement half depends
/// only on its arguments.
proof fn lemma_digit_refreshed_twice(e: Entity, k: int, x: i16, y: i16, n1: u32, n2: u32)
    requires
        digits_used(n1) <= digits_used(n2),
    ensures
        digit_refreshed(digit_refreshed(e, k, x, y, n1), k, x, y, n2) == digit_refreshed(
            e,
            k,
            x,
            y,
            n2,
        ),
{
}

/// A bullet-pool slot as `World::new` seeds it: free, the 2x2 box, parked
/// mid-screen, glyph row 53.
pub open spec fn bullet_seed() -> Entity {
    Entity {
        x: 70,
        y: 40,
        w: 2,
        h: 2,
        typ: TYP_BULLET,
        del: true,
        state: 0,
        sprite_x: 0,
        sprite_y: 53,
        speed: 0,
    }
}

/// An enemy-pool slot as `World::new` seeds it.
pub open spec fn enemy_seed() -> Entity {
    Entity {
        x: 40,
        y: 40,
        w: 11,
        h: 8,
        typ: TYP_ENEMY,
        del: true,
        state: 0,
        sprite_x: 0,
        sprite_y: 24,
        speed: 0,
    }
}

/// A star-pool slot as `World::new` seeds it: free, on the slow tier until
/// a spawn draws one.
pub open spec fn star_seed() -> Entity {
    Entity {
        x: 0,
        y: 0,
        w: 2,
        h: 1,
        typ: TYP_STAR,
        del: true,
        state: 0,
        sprite_x: 0,
        sprite_y: 32,
        speed: 1,
    }
}

/// The player slot as `World::new` seeds it: active, centred vertically.
pub open spec fn player_seed() -> Entity {
    Entity {
        x: 20,
        y: 27,
        w: 12,
        h: 10,
        typ: TYP_PLAYER,
        del: false,
        state: 0,
        sprite_x: 0,
        sprite_y: 33,
        speed: 0,
    }
}

/// Slot `j` is a free slot of the given kind.
pub open spec fn is_free_of(s: Seq<Entity>, j: int, typ: i16) -> bool {
    s[j].del && s[j].typ == typ
}

/// Slot `j` is the lowest free slot of the given kind — the one a spawn
/// takes.
pub open spec fn is_first_free_of(s: Seq<Entity>, j: int, typ: i16) -> bool {
    &&& is_free_of(s, j, typ)
    &&& forall|k: int| 0 <= k < j ==> !is_free_of(s, k, typ)
}

/// Law: allocation is sound. A spawn flips the first free slot of its
/// kind — `is_first_free_of`, the condition every spawn contract carries —
/// so the slot it takes was genuinely free (no active slot is ever handed
/// out twice), it lies inside the pool's fixed capacity, and every other
/// slot keeps its allocation state: the pool never grows.
pub proof fn lemma_spawn_allocates_soundly(s: Seq<Entity>, j: int, typ: i16, e: Entity)
    requires
        s.len() == POOL_SIZE as int,
        0 <= j < s.len(),
        is_first_free_of(s, j, typ),
    ensures
        s[j].del,
        s.update(j, e).len() == POOL_SIZE as int,
        forall|k: int| 0 <= k < s.len() && k != j ==> s.update(j, e)[k] == s[k],
{
}

/// The speed tier one spawn draw picks: a draw mapped into `0..4` lands on
/// 0 with about one chance in four and selects the fast tier; every other
/// value selects the slow one.
pub open spec fn star_tier(draw: u64) -> u16 {
    if range_map(draw, 0, 4) == 0 {
        2
    } else {
        1
    }
}

/// An entity after the clear-wave pass: an active enemy is freed, anything
/// else is left alone.
pub open spec fn enemy_cleared(e: Entity) -> Entity {
    if !e.del && e.typ == TYP_ENEMY {
        Entity { del: true, ..e }
    } else {
        e
    }
}

/// An enemy after its per-frame step: two pixels left, the 0..20 animation
/// counter advanced with wrap-around, and the sprite frame picked from the
/// counter's half.
pub open spec fn enemy_stepped(e: Entity) -> Entity {
    let s1 = vstd::wrapping::u8_specs::wrapping_add(e.state, 1);
    let s2: u8 = if s1 >= 20 {
        0
    } else {
        s1
    };
    let sx: u8 = if s2 < 10 {
        0
    } else {
        19
    };
    Entity { x: (e.x - 2) as i16, state: s2, sprite_x: sx, ..e }
}

/// A star after its per-frame step: the animation counter ticks, the
/// twinkle column is redrawn from a fresh draw, and it drifts left by the
/// base speed plus its tier.
pub open spec fn star_stepped(e: Entity, draw: u64) -> Entity {
    Entity {
        state: vstd::wrapping::u8_specs::wrapping_add(e.state, 1),
        sprite_x: range_map(draw, 0, 30) as u8,
        x: (e.x - (3 + e.speed as int)) as i16,
        ..e
    }
}

/// A bullet after its per-frame move: freed once past the right bound,
/// otherwise four pixels right.
pub open spec fn bullet_moved(e: Entity) -> Entity {
    if e.x + e.w * 2 > DISP_W as int {
        Entity { del: true, ..e }
    } else {
        Entity { x: (e.x + 4) as i16, ..e }
    }
}

/// Slot `j` holds an active enemy touching the box `b` — a moved bullet's
/// in the sweep, the player's in the defeat test.
pub open spec fn bullet_hits(s: Seq<Entity>, b: Entity, j: int) -> bool {
    &&& !s[j].del
    &&& s[j].typ == TYP_ENEMY
    &&& collides(b, s[j])
}

/// How many slots below `upto` the moved bullet `b` hits.
pub open spec fn hit_count(s: Seq<Entity>, b: Entity, upto: int) -> nat
    decreases upto,
{
    if upto <= 0 {
        0
    } else {
        hit_count(s, b, upto - 1) + (if bullet_hits(s, b, upto - 1) {
            1nat
        } else {
            0nat
        })
    }
}

/// The pool after the bullet `b` has been tested against every slot below
/// `upto`: each hit enemy is freed, every other slot still holds its old
/// value.
pub open spec fn swept_upto(s: Seq<Entity>, b: Entity, upto: int) -> Seq<Entity> {
    Seq::new(
        s.len(),
        |k: int|
            if k < upto && bullet_hits(s, b, k) {
                Entity { del: true, ..s[k] }
            } else {
                s[k]
            },
    )
}

/// The telemetry bytes the first `k` hits of one bullet emit: after the
/// `j`-th hit, the low byte of the new score plus the digit-zero offset
/// (wrapping), then a newline.
pub open spec fn tele_pairs(score0: u32, k: nat) -> Seq<u8>
    decreases k,
{
    if k == 0 {
        Seq::empty()
    } else {
        tele_pairs(score0, (k - 1) as nat) + seq![
            vstd::wrapping::u8_specs::wrapping_add((score0 + k) as u8, 48),
            10u8,
        ]
    }
}

/// The sprite pose the vertical axis picks: up, down or idle.
pub open spec fn player_pose(y_move: i16) -> u8 {
    if y_move > 0 {
        43
    } else if y_move < 0 {
        53
    } else {
        33
    }
}

/// The player after its per-frame step: displaced two pixels per axis unit,
/// re-posed from the vertical axis sign, then clamped so the whole box
/// stays on the display.
pub open spec fn player_stepped(e: Entity, input: PlayerInput) -> Entity {
    let x1 = e.x + input.x_move * 2;
    let y1 = e.y + input.y_move * 2;
    let x2: int = if x1 < 0 {
        0
    } else {
        x1
    };
    let x3: int = if x2 + e.w > DISP_W as int {
        DISP_W as int - e.w
    } else {
        x2
    };
    let y2: int = if y1 < 0 {
        0
    } else {
        y1
    };
    let y3: int = if y2 + e.h > DISP_H as int {
        DISP_H as int - e.h
    } else {
        y2
    };
    Entity { x: x3 as i16, y: y3 as i16, sprite_y: player_pose(input.y_move), ..e }
}

/// A bullet slot the player fires: activated at the muzzle — just right of
/// the player's box, vertically centred on it.
pub open spec fn bullet_fired(p: Entity, slot: Entity) -> Entity {
    Entity {
        del: false,
        x: (p.x + p.w + 1) as i16,
        y: (p.y + p.h as int / 2 - slot.h as int / 2) as i16,
        ..slot
    }
}

/// The per-frame state one tick works on, as one specification value: the
/// pool, the random pair, the score, the sound fields, the telemetry bytes
/// appended so far this frame, and the returned status (0 running, 1
/// defeated; once 1, the rest of the pass does nothing).
pub struct FrameState {
    pub ents: Seq<Entity>,
    pub rng: (u64, u64),
    pub score: int,
    pub snd_counter: u16,
    pub snd_end: u16,
    pub snd_active: bool,
    pub snd_freqs: Seq<u32>,
    pub tele: Seq<u8>,
    pub status: u16,
}

/// The frame state a world starts a tick in, before any telemetry.
pub open spec fn frame_of(w: World) -> FrameState {
    FrameState {
        ents: w.entities@,
        rng: w.random@,
        score: w.score as int,
        snd_counter: w.sound.counter,
        snd_end: w.sound.counter_end,
        snd_active: w.sound.active,
        snd_freqs: w.sound.freqs@,
        tele: Seq::empty(),
        status: 0,
    }
}

/// The enemy spawn phase: one roll against `100 + score`; on success the
/// first free enemy slot (if any) comes alive at the right edge with a
/// drawn vertical position.
pub open spec fn spec_spawn_enemy(st: FrameState) -> FrameState {
    let roll = range_map(xs_out(st.rng.0, st.rng.1), 0, 1000);
    let rng1 = xs_step(st.rng);
    if roll < 100 + st.score {
        if exists|j: int|
            0 <= j < POOL_SIZE as int && #[trigger] is_first_free_of(st.ents, j, TYP_ENEMY) {
            let j = choose|j: int|
                0 <= j < POOL_SIZE as int && #[trigger] is_first_free_of(st.ents, j, TYP_ENEMY);
            FrameState {
                ents: st.ents.update(
                    j,
                    (Entity {
                        del: false,
                        x: 117,
                        y: range_map(xs_out(rng1.0, rng1.1), 0, 56) as i16,
                        ..st.ents[j]
                    }),
                ),
                rng: xs_step(rng1),
                ..st
            }
        } else {
            FrameState { rng: rng1, ..st }
        }
    } else {
        FrameState { rng: rng1, ..st }
    }
}

/// The clear-wave phase: when the signal was pending, every active enemy
/// is freed.
pub open spec fn spec_clear_wave(st: FrameState, pending: bool) -> FrameState {
    if pending {
        FrameState { ents: Seq::new(st.ents.len(), |i: int| enemy_cleared(st.ents[i])), ..st }
    } else {
        st
    }
}

/// The star spawn phase: one raw draw against a third of the 64-bit range;
/// on success the first free star slot (if any) comes alive at the right
/// edge with a drawn vertical position and a drawn speed tier.
pub open spec fn spec_spawn_star(st: FrameState) -> FrameState {
    let rng1 = xs_step(st.rng);
    if xs_out(st.rng.0, st.rng.1) < u64::MAX / 3 {
        if exists|j: int|
            0 <= j < POOL_SIZE as int && #[trigger] is_first_free_of(st.ents, j, TYP_STAR) {
            let j = choose|j: int|
                0 <= j < POOL_SIZE as int && #[trigger] is_first_free_of(st.ents, j, TYP_STAR);
            FrameState {
                ents: st.ents.update(
                    j,
                    (Entity {
                        del: false,
                        x: 126,
                        y: range_map(xs_out(rng1.0, rng1.1), 0, 63) as i16,
                        speed: star_tier(xs_out(xs_step(rng1).0, xs_step(rng1).1)),
                        ..st.ents[j]
                    }),
                ),
                rng: xs_step(xs_step(rng1)),
                ..st
            }
        } else {
            FrameState { rng: rng1, ..st }
        }
    } else {
        FrameState { rng: rng1, ..st }
    }
}

/// The off-screen retirement of slot `i`: freed; an escaping enemy also
/// costs one (floored) score point and refreshes the display.
pub open spec fn spec_retire(st: FrameState, i: int) -> FrameState {
    let freed = Entity { del: true, ..st.ents[i] };
    if st.ents[i].typ == TYP_ENEMY && st.score > 0 {
        FrameState {
            ents: digits_refresh(st.ents, 110, 1, (st.score - 1) as u32).update(i, freed),
            score: st.score - 1,
            ..st
        }
    } else {
        FrameState { ents: st.ents.update(i, freed), ..st }
    }
}

/// The bullet step of slot `i`: retire past the right bound with no sweep,
/// otherwise move and sweep, exactly as `update_bullet` states.
pub open spec fn spec_bullet(st: FrameState, i: int) -> FrameState {
    let b = bullet_moved(st.ents[i]);
    if b.del {
        FrameState { ents: st.ents.update(i, b), ..st }
    } else {
        let hits = hit_count(st.ents, b, POOL_SIZE as int);
        let swept = swept_upto(st.ents, b, POOL_SIZE as int);
        if hits > 0 {
            FrameState {
                ents: digits_refresh(swept, 110, 1, (st.score + hits) as u32).update(
                    i,
                    (Entity { del: true, ..b }),
                ),
                score: st.score + hits,
                snd_counter: 0,
                snd_end: 2,
                snd_active: true,
                tele: st.tele + tele_pairs(st.score as u32, hits),
                ..st
            }
        } else {
            FrameState { ents: swept.update(i, b), ..st }
        }
    }
}

/// The player step of slot `i`: defeat on any enemy contact, else the
/// stepped ship plus, on a fire edge with a free bullet slot, the fired
/// bullet and the armed shoot envelope, exactly as `update_player` states.
pub open spec fn spec_player(st: FrameState, i: int, input: PlayerInput) -> FrameState {
    let p = st.ents[i];
    if exists|j: int| 0 <= j < POOL_SIZE as int && #[trigger] bullet_hits(st.ents, p, j) {
        FrameState { score: 0, status: 1, ..st }
    } else {
        let stepped = player_stepped(p, input);
        let fire = input.a_btn_on && input.a_btn_changed;
        if fire && (exists|j: int|
            0 <= j < POOL_SIZE as int && #[trigger] is_first_free_of(st.ents, j, TYP_BULLET)) {
            let j = choose|j: int|
                0 <= j < POOL_SIZE as int && #[trigger] is_first_free_of(st.ents, j, TYP_BULLET);
            FrameState {
                ents: st.ents.update(j, bullet_fired(stepped, st.ents[j])).update(i, stepped),
                rng: xs_step(xs_step(st.rng)),
                snd_counter: 3,
                snd_end: 4,
                snd_active: true,
                snd_freqs: st.snd_freqs.update(
                    3,
                    range_map(xs_out(st.rng.0, st.rng.1), 3400, 3700) as u32,
                ).update(
                    4,
                    range_map(xs_out(xs_step(st.rng).0, xs_step(st.rng).1), 2800, 3000) as u32,
                ),
                ..st
            }
        } else {
            FrameState { ents: st.ents.update(i, stepped), ..st }
        }
    }
}

/// One slot of the update pass: nothing for a free slot or once the status
/// is 1; otherwise off-screen retirement first, then the per-kind step.
pub open spec fn spec_slot(st: FrameState, i: int, input: PlayerInput) -> FrameState {
    let e = st.ents[i];
    if st.status == 1 || e.del {
        st
    } else if e.x + e.w < -2 {
        spec_retire(st, i)
    } else if e.typ == TYP_BULLET {
        spec_bullet(st, i)
    } else if e.typ == TYP_PLAYER {
        spec_player(st, i, input)
    } else if e.typ == TYP_ENEMY {
        FrameState { ents: st.ents.update(i, enemy_stepped(e)), ..st }
    } else if e.typ == TYP_STAR {
        FrameState {
            ents: st.ents.update(i, star_stepped(e, xs_out(st.rng.0, st.rng.1))),
            rng: xs_step(st.rng),
            ..st
        }
    } else {
        st
    }
}

/// The update pass from slot `i` on, in index order.
pub open spec fn spec_pass(st: FrameState, input: PlayerInput, i: int) -> FrameState
    decreases POOL_SIZE as int - i,
{
    if i >= POOL_SIZE as int {
        st
    } else {
        spec_pass(spec_slot(st, i, input), input, i + 1)
    }
}

/// One whole frame as a function of the starting world, the input and the
/// pending clear-wave signal: the three spawn/clear phases in their fixed
/// order, then the update pass over all slots. The slot each spawn chooses
/// is the unique first free one of its kind (`lemma_first_free_unique`),
/// so this is a genuine function of its three arguments — whole-frame
/// determinism in one place. `tick` ensures its final state, status and
/// appended telemetry equal exactly this.
pub open spec fn spec_tick(w: World, input: PlayerInput, pending: bool) -> FrameState {
    spec_pass(
        spec_spawn_star(spec_clear_wave(spec_spawn_enemy(frame_of(w)), pending)),
        input,
        0,
    )
}

/// The first free slot of a kind is unique.
proof fn lemma_first_free_unique(s: Seq<Entity>, typ: i16, j1: int, j2: int)
    requires
        0 <= j1,
        0 <= j2,
        is_first_free_of(s, j1, typ),
        is_first_free_of(s, j2, typ),
    ensures
        j1 == j2,
{
    if j1 < j2 {
        assert(!is_free_of(s, j1, typ));
    } else if j2 < j1 {
        assert(!is_free_of(s, j2, typ));
    }
}

/// Once the status is 1, the rest of the pass changes nothing.
proof fn lemma_pass_stopped(st: FrameState, input: PlayerInput, i: int)
    requires
        st.status == 1,
    ensures
        spec_pass(st, input, i) == st,
    decreases POOL_SIZE as int - i,
{
    if i < POOL_SIZE as int {
        lemma_pass_stopped(st, input, i + 1);
    }
}

pub struct World {
    pub entities: [Entity; POOL_SIZE],
    pub random: Xorshift128pState,
    pub score: u32,
    pub sound: Sound,
}

impl World {
    /// The pool invariant: every slot is well formed for its index, and the
    /// sound envelope stays inside its table. Constructed by `new`, kept by
    /// every mutating method.
    pub open spec fn wf(self) -> bool {
        &&& forall|i: int|
            0 <= i < POOL_SIZE as int ==> slot_wf(#[trigger] self.entities@[i], i)
        &&& self.sound.wf()
    }

    /// The collision test, exactly the inclusive-edge box predicate
    /// `collides`. The bounds only rule out 16-bit overflow in the sums.
    pub fn has_collision(&self, a: Entity, b: Entity) -> (r: bool)
        requires
            i16::MIN <= a.x + a.w <= i16::MAX,
            i16::MIN <= b.x + b.w <= i16::MAX,
            i16::MIN <= a.y + a.h <= i16::MAX,
            i16::MIN <= b.y + b.h <= i16::MAX,
        ensures
            r == collides(a, b),
    {
        a.x + a.w >= b.x && a.x <= b.x + b.w && a.y + a.h >= b.y && a.y <= b.y + b.h
    }

    /// The lowest free slot of the given kind, if any: the pool never hands
    /// out an active slot, and never reports exhaustion while a matching
    /// free slot remains.
    pub fn find_free(&self, typ: i16) -> (r: Option<usize>)
        ensures
            match r {
                Some(i) => {
                    &&& i < POOL_SIZE
                    &&& self.entities@[i as int].del
                    &&& self.entities@[i as int].typ == typ
                    &&& forall|j: int|
                        0 <= j < i as int ==> !((#[trigger] self.entities@[j]).del
                            && self.entities@[j].typ == typ)
                },
                None => forall|j: int|
                    0 <= j < POOL_SIZE as int ==> !((#[trigger] self.entities@[j]).del
                        && self.entities@[j].typ == typ),
            },
    {
        let mut i: usize = 0;
        while i < POOL_SIZE
            invariant
                i <= POOL_SIZE,
                forall|j: int|
                    0 <= j < i as int ==> !((#[trigger] self.entities@[j]).del
                        && self.entities@[j].typ == typ),
            decreases POOL_SIZE - i,
        {
            if self.entities[i].del && self.entities[i].typ == typ {
                return Some(i);
            }
            i += 1;
        }
        None
    }

    /// Refresh the score display: free all ten digit slots, then re-activate
    /// one slot per decimal digit of `n`, least significant first at the
    /// anchor `(x, y)`, each further digit one glyph pitch (8 pixels) to the
    /// left. At most nine digits fit. Nothing outside the digit slots moves.
    pub fn write_number(&mut self, x: i16, y: i16, n: u32)
        requires
            old(self).wf(),
            0 <= x <= 160,
            -64 <= y <= 160,
        ensures
            final(self).wf(),
            final(self).entities@ == digits_refresh(old(self).entities@, x, y, n),
            digit_slots_show(final(self).entities@, x, y, n),
            forall|i: int|
                0 <= i < POOL_SIZE as int && !(60 <= i < 70) ==> final(self).entities@[i]
                    == old(self).entities@[i],
            final(self).score == old(self).score,
            final(self).random == old(self).random,
            final(self).sound == old(self).sound,
    {
        // clear digits
        let mut i: usize = 60;
        while i < 70
            invariant
                60 <= i <= 70,
                self.wf(),
                forall|j: int| 60 <= j < i as int ==> #[trigger] self.entities@[j]
                    == digit_cleared(old(self).entities@[j]),
                forall|j: int|
                    0 <= j < POOL_SIZE as int && !(60 <= j < i as int) ==> #[trigger] self
                        .entities@[j] == old(self).entities@[j],
                self.score == old(self).score,
                self.random == old(self).random,
                self.sound == old(self).sound,
            decreases 70 - i,
        {
            let mut entity = self.entities[i];
            entity.typ = TYP_DIGIT;
            entity.w = 8i16;
            entity.h = 8i16;
            entity.y = 15i16;
            entity.del = true;
            entity.sprite_x = 0;
            entity.sprite_y = 0;
            self.entities[i] = entity;
            i += 1;
        }

        let ghost cleared = self.entities@;
        let mut rem: u32 = n;
        let mut i: usize = 0;
        proof {
            vstd::arithmetic::div_mod::lemma_div_basics_2(n as int);
            assert(rem as nat == n as nat / pow10(0));
        }
        while i < 9
            invariant_except_break
                i > 0 ==> rem != 0,
            invariant
                i <= 9,
                rem as nat == n as nat / pow10(i as nat),
                i > 0 && rem == 0 ==> digits_used(n) == i as int,
                self.wf(),
                0 <= x <= 160,
                -64 <= y <= 160,
                forall|k: int|
                    0 <= k < i as int ==> {
                        let e = #[trigger] self.entities@[60 + k];
                        &&& e == (Entity {
                            x: (x - 8 * k) as i16,
                            y: y,
                            del: false,
                            sprite_x: (8 * digit_at(n, k as nat)) as u8,
                            sprite_y: (8 * (digit_at(n, k as nat) / 4)) as u8,
                            ..cleared[60 + k]
                        })
                        &&& k < digits_used(n)
                    },
                forall|k: int| i as int <= k < 10 ==> #[trigger] self.entities@[60 + k]
                    == cleared[60 + k],
                forall|j: int|
                    0 <= j < POOL_SIZE as int && !(60 <= j < 70) ==> #[trigger] self.entities@[j]
                        == old(self).entities@[j],
                forall|j: int| 60 <= j < 70 ==> cleared[j] == digit_cleared(
                    old(self).entities@[j],
                ),
                self.score == old(self).score,
                self.random == old(self).random,
                self.sound == old(self).sound,
            ensures
                self.wf(),
                1 <= i <= 9,
                rem as nat == n as nat / pow10(i as nat),
                rem == 0 ==> digits_used(n) == i as int,
                rem != 0 ==> i == 9,
                forall|k: int|
                    0 <= k < i as int ==> {
                        let e = #[trigger] self.entities@[60 + k];
                        e == (Entity {
                            x: (x - 8 * k) as i16,
                            y: y,
                            del: false,
                            sprite_x: (8 * digit_at(n, k as nat)) as u8,
                            sprite_y: (8 * (digit_at(n, k as nat) / 4)) as u8,
                            ..cleared[60 + k]
                        })
                    },
                forall|k: int| i as int <= k < 10 ==> #[trigger] self.entities@[60 + k]
                    == cleared[60 + k],
                forall|j: int|
                    0 <= j < POOL_SIZE as int && !(60 <= j < 70) ==> #[trigger] self.entities@[j]
                        == old(self).entities@[j],
                forall|j: int| 60 <= j < 70 ==> cleared[j] == digit_cleared(
                    old(self).entities@[j],
                ),
                self.score == old(self).score,
                self.random == old(self).random,
                self.sound == old(self).sound,
            decreases 9 - i,
        {
            let m: u32 = rem % 10u32;
            proof {
                if i > 0 {
                    lemma_ndigits_pow10(n as nat, i as nat);
                }
                lemma_div_pow10_step(n as nat, i as nat);
            }
            let next: u32 = rem / 10u32;

            let mut entity = self.entities[i + 60];
            entity.x = x - (i as i16) * 8;
            entity.y = y;
            entity.del = false;
            // the glyph table packs four digits per row group
            entity.sprite_x = m as u8 * 8;
            entity.sprite_y = (m as u8 / 4) * 8;
            self.entities[i + 60] = entity;
            rem = next;
            proof {
                assert(slot_wf(self.entities@[60 + i as int], 60 + i as int));
            }

            proof {
                lemma_ndigits_pow10(n as nat, (i + 1) as nat);
            }
            if rem == 0 {
                i += 1;
                break;
            }
            i += 1;
        }
        proof {
            if rem != 0 {
                lemma_ndigits_pow10(n as nat, 9);
                assert(digits_used(n) == 9);
            }
            assert forall|m: int| 0 <= m < POOL_SIZE as int implies self.entities@[m]
                == digits_refresh(old(self).entities@, x, y, n)[m] by {
                if 60 <= m < 70 {
                    let k = m - 60;
                    assert(self.entities@[60 + k] == self.entities@[m]);
                    assert(cleared[60 + k] == digit_cleared(old(self).entities@[60 + k]));
                }
            }
            assert(self.entities@ =~= digits_refresh(old(self).entities@, x, y, n));
        }
    }

    /// A fresh world: a blank pool with the bullet, enemy, star, digit and
    /// player ranges pre-seeded, score zero, a silent sound player, and the
    /// random stream warmed from `seed`: exactly the six warm-up draws are
    /// spent here.
    pub fn new(seed: u16) -> (w: World)
        ensures
            w.wf(),
            w.score == 0,
            w.sound.counter == 0,
            w.sound.counter_end == 3,
            !w.sound.active,
            w.sound.freqs@ =~= seq![800u32, 900u32, 1000u32, 3700u32, 2900u32, 2600u32],
            w.random@ == xs_iter(xs_seeded(seed as u64), 6),
            forall|i: int| 1 <= i < 5 ==> #[trigger] w.entities@[i] == bullet_seed(),
            forall|i: int| 10 <= i < 40 ==> #[trigger] w.entities@[i] == enemy_seed(),
            forall|i: int| 40 <= i < 50 ==> #[trigger] w.entities@[i] == star_seed(),
            w.entities@[51] == player_seed(),
            forall|i: int|
                0 <= i < POOL_SIZE as int && !(1 <= i < 5) && !(10 <= i < 50) && i != 51
                    ==> #[trigger] w.entities@[i] == blank_entity(),
    {
        let mut world = World {
            entities: [Entity::new(); POOL_SIZE],
            random: Xorshift128pState::new(seed as u64),
            score: 0u32,
            sound: Sound::new(),
        };
        let ghost snd = world.sound;

        // make bullet pool
        let mut i: usize = 1;
        while i < 5
            invariant
                1 <= i <= 5,
                world.random@ == xs_iter(xs_seeded(seed as u64), 6),
                world.score == 0,
                world.sound == snd,
                forall|j: int| 1 <= j < i as int ==> #[trigger] world.entities@[j]
                    == bullet_seed(),
                forall|j: int|
                    0 <= j < POOL_SIZE as int && !(1 <= j < i as int)
                        ==> #[trigger] world.entities@[j] == blank_entity(),
            decreases 5 - i,
        {
            let mut entity = world.entities[i];
            entity.typ = TYP_BULLET;
            entity.w = 2i16;
            entity.h = 2i16;
            entity.x = 70i16;
            entity.y = 40i16;
            entity.del = true;
            entity.sprite_y = 53;
            world.entities[i] = entity;
            i += 1;
        }

        // enemy pool
        let mut i: usize = 10;
        while i < 40
            invariant
                10 <= i <= 40,
                world.random@ == xs_iter(xs_seeded(seed as u64), 6),
                world.score == 0,
                world.sound == snd,
                forall|j: int| 1 <= j < 5 ==> #[trigger] world.entities@[j] == bullet_seed(),
                forall|j: int| 10 <= j < i as int ==> #[trigger] world.entities@[j]
                    == enemy_seed(),
                forall|j: int|
                    0 <= j < POOL_SIZE as int && !(1 <= j < 5) && !(10 <= j < i as int)
                        ==> #[trigger] world.entities@[j] == blank_entity(),
            decreases 40 - i,
        {
            let mut entity = world.entities[i];
            entity.typ = TYP_ENEMY;
            entity.w = 11i16;
            entity.h = 8i16;
            entity.x = 40i16;
            entity.y = 40i16;
            entity.del = true;
            entity.sprite_y = 24;
            world.entities[i] = entity;
            i += 1;
        }

        // star pool
        let mut i: usize = 40;
        while i < 50
            invariant
                40 <= i <= 50,
                world.random@ == xs_iter(xs_seeded(seed as u64), 6),
                world.score == 0,
                world.sound == snd,
                forall|j: int| 1 <= j < 5 ==> #[trigger] world.entities@[j] == bullet_seed(),
                forall|j: int| 10 <= j < 40 ==> #[trigger] world.entities@[j] == enemy_seed(),
                forall|j: int| 40 <= j < i as int ==> #[trigger] world.entities@[j]
                    == star_seed(),
                forall|j: int|
                    0 <= j < POOL_SIZE as int && !(1 <= j < 5) && !(10 <= j < i as int)
                        ==> #[trigger] world.entities@[j] == blank_entity(),
            decreases 50 - i,
        {
            let mut entity = world.entities[i];
            entity.typ = TYP_STAR;
            entity.w = 2i16;
            entity.h = 1i16;
            entity.x = 0i16;
            entity.y = 0i16;
            entity.del = true;
            entity.sprite_y = 32;
            entity.speed = 1;
            world.entities[i] = entity;
            i += 1;
        }

        // player
        let mut entity = world.entities[51];
        entity.typ = TYP_PLAYER;
        entity.w = 12i16;
        entity.h = 10i16;
        entity.x = 20i16;
        entity.y = 0i16;
        entity.sprite_y = 33u8;
        entity.del = false;
        entity.y = DISP_H / 2 - entity.h / 2;
        world.entities[51] = entity;

        proof {
            assert forall|i: int| 0 <= i < POOL_SIZE as int implies slot_wf(
                #[trigger] world.entities@[i],
                i,
            ) by {
            }
        }
        world
    }

    /// The enemy spawn roll: one draw in `0..1000` against `100 + score`,
    /// so the spawn chance grows with the score; on success the lowest free
    /// enemy slot (if any) comes alive at the right display edge with a
    /// freshly drawn vertical position.
    pub fn spawn_enemy(&mut self)
        requires
            old(self).wf(),
        ensures
            final(self).wf(),
            final(self).score == old(self).score,
            final(self).sound == old(self).sound,
            ({
                let s0 = old(self).random@;
                let roll = range_map(xs_out(s0.0, s0.1), 0, 1000);
                if roll < 100 + old(self).score {
                    if exists|j: int|
                        0 <= j < POOL_SIZE as int && is_free_of(
                            old(self).entities@,
                            j,
                            TYP_ENEMY,
                        ) {
                        &&& final(self).random@ == xs_step(xs_step(s0))
                        &&& exists|j: int|
                            {
                                &&& 0 <= j < POOL_SIZE as int
                                &&& is_first_free_of(old(self).entities@, j, TYP_ENEMY)
                                &&& final(self).entities@ == old(self).entities@.update(
                                    j,
                                    (Entity {
                                        del: false,
                                        x: 117,
                                        y: range_map(
                                            xs_out(xs_step(s0).0, xs_step(s0).1),
                                            0,
                                            56,
                                        ) as i16,
                                        ..old(self).entities@[j]
                                    }),
                                )
                            }
                    } else {
                        &&& final(self).random@ == xs_step(s0)
                        &&& final(self).entities@ == old(self).entities@
                    }
                } else {
                    &&& final(self).random@ == xs_step(s0)
                    &&& final(self).entities@ == old(self).entities@
                }
            }),
    {
        if self.random.gen_min_max(0, 1000) < 100 + (self.score as u64) {
            match self.find_free(TYP_ENEMY) {
                Some(i) => {
                    let mut enemy = self.entities[i];
                    enemy.del = false;
                    enemy.x = DISP_W - enemy.w;
                    enemy.y = self.random.gen_min_max(0u64, DISP_H as u64 - enemy.h as u64)
                        as i16;
                    self.entities[i] = enemy;
                    proof {
                        assert(is_first_free_of(old(self).entities@, i as int, TYP_ENEMY));
                        assert(self.entities@ == old(self).entities@.update(
                            i as int,
                            (Entity {
                                del: false,
                                x: 117,
                                y: range_map(
                                    xs_out(xs_step(old(self).random@).0, xs_step(old(self).random@).1),
                                    0,
                                    56,
                                ) as i16,
                                ..old(self).entities@[i as int]
                            }),
                        ));
                    }
                },
                None => {},
            }
        }
    }

    /// Consume the one-shot clear-wave signal: when it was pending, free
    /// every active enemy; either way the signal is down afterwards.
    pub fn apply_clear_wave(&mut self, wave: &mut ClearWave)
        requires
            old(self).wf(),
        ensures
            final(self).wf(),
            !final(wave).pending,
            final(self).score == old(self).score,
            final(self).random == old(self).random,
            final(self).sound == old(self).sound,
            old(wave).pending ==> forall|i: int|
                0 <= i < POOL_SIZE as int ==> final(self).entities@[i] == enemy_cleared(
                    #[trigger] old(self).entities@[i],
                ),
            !old(wave).pending ==> final(self).entities@ == old(self).entities@,
    {
        if wave.take() {
            let mut i: usize = 0;
            while i < POOL_SIZE
                invariant
                    i <= POOL_SIZE,
                    self.wf(),
                    self.score == old(self).score,
                    self.random == old(self).random,
                    self.sound == old(self).sound,
                    forall|j: int|
                        0 <= j < i as int ==> self.entities@[j] == enemy_cleared(
                            #[trigger] old(self).entities@[j],
                        ),
                    forall|j: int|
                        i as int <= j < POOL_SIZE as int ==> #[trigger] self.entities@[j]
                            == old(self).entities@[j],
                decreases POOL_SIZE - i,
            {
                if !self.entities[i].del && self.entities[i].typ == TYP_ENEMY {
                    let mut enemy = self.entities[i];
                    enemy.del = true;
                    self.entities[i] = enemy;
                }
                i += 1;
            }
        }
    }

    /// The star spawn roll: one raw draw against a third of the 64-bit
    /// range; on success the lowest free star slot (if any) comes alive at
    /// the right edge with a freshly drawn vertical position and a freshly
    /// drawn speed tier (about one chance in four of the fast tier).
    pub fn spawn_star(&mut self)
        requires
            old(self).wf(),
        ensures
            final(self).wf(),
            final(self).score == old(self).score,
            final(self).sound == old(self).sound,
            ({
                let s0 = old(self).random@;
                if xs_out(s0.0, s0.1) < u64::MAX / 3 {
                    if exists|j: int|
                        0 <= j < POOL_SIZE as int && is_free_of(
                            old(self).entities@,
                            j,
                            TYP_STAR,
                        ) {
                        &&& final(self).random@ == xs_step(xs_step(xs_step(s0)))
                        &&& exists|j: int|
                            {
                                &&& 0 <= j < POOL_SIZE as int
                                &&& is_first_free_of(old(self).entities@, j, TYP_STAR)
                                &&& final(self).entities@ == old(self).entities@.update(
                                    j,
                                    (Entity {
                                        del: false,
                                        x: 126,
                                        y: range_map(
                                            xs_out(xs_step(s0).0, xs_step(s0).1),
                                            0,
                                            63,
                                        ) as i16,
                                        speed: star_tier(
                                            xs_out(xs_step(xs_step(s0)).0, xs_step(xs_step(s0)).1),
                                        ),
                                        ..old(self).entities@[j]
                                    }),
                                )
                            }
                    } else {
                        &&& final(self).random@ == xs_step(s0)
                        &&& final(self).entities@ == old(self).entities@
                    }
                } else {
                    &&& final(self).random@ == xs_step(s0)
                    &&& final(self).entities@ == old(self).entities@
                }
            }),
    {
        if self.random.gen() < u64::MAX / 3 {
            match self.find_free(TYP_STAR) {
                Some(i) => {
                    let mut star = self.entities[i];
                    star.del = false;
                    star.x = DISP_W - star.w;
                    star.y = self.random.gen_min_max(0u64, DISP_H as u64 - star.h as u64)
                        as i16;
                    if self.random.gen_min_max(0, 4) == 0 {
                        star.speed = 2;
                    } else {
                        star.speed = 1;
                    }
                    self.entities[i] = star;
                    proof {
                        let s0 = old(self).random@;
                        assert(is_first_free_of(old(self).entities@, i as int, TYP_STAR));
                        assert(self.entities@ == old(self).entities@.update(
                            i as int,
                            (Entity {
                                del: false,
                                x: 126,
                                y: range_map(xs_out(xs_step(s0).0, xs_step(s0).1), 0, 63) as i16,
                                speed: star_tier(
                                    xs_out(xs_step(xs_step(s0)).0, xs_step(xs_step(s0)).1),
                                ),
                                ..old(self).entities@[i as int]
                            }),
                        ));
                    }
                },
                None => {},
            }
        }
    }

    /// Free a slot whose right edge has drifted past the small margin left
    /// of the display. An escaping enemy also costs one score point —
    /// floored at zero — and refreshes the score display; nothing else
    /// changes the score here.
    pub fn retire_offscreen(&mut self, i: usize)
        requires
            old(self).wf(),
            i < POOL_SIZE,
            !old(self).entities@[i as int].del,
            old(self).entities@[i as int].x + old(self).entities@[i as int].w < -2,
        ensures
            final(self).wf(),
            final(self).random == old(self).random,
            final(self).sound == old(self).sound,
            !(old(self).entities@[i as int].typ == TYP_ENEMY && old(self).score > 0) ==> {
                &&& final(self).entities@ == old(self).entities@.update(
                    i as int,
                    (Entity { del: true, ..old(self).entities@[i as int] }),
                )
                &&& final(self).score == old(self).score
            },
            (old(self).entities@[i as int].typ == TYP_ENEMY && old(self).score > 0) ==> {
                &&& final(self).score == old(self).score - 1
                &&& final(self).entities@ == digits_refresh(
                    old(self).entities@,
                    110,
                    1,
                    (old(self).score - 1) as u32,
                ).update(i as int, (Entity { del: true, ..old(self).entities@[i as int] }))
                &&& digit_slots_show(final(self).entities@, 110, 1, final(self).score)
            },
    {
        let mut entity = self.entities[i];
        entity.del = true;
        if entity.typ == TYP_ENEMY && self.score > 0 {
            self.score -= 1;
            let n = self.score;
            self.write_number(110, 1, n);
        }
        self.entities[i] = entity;
    }

    /// One enemy's per-frame step, exactly `enemy_stepped`.
    pub fn update_enemy(&mut self, i: usize)
        requires
            old(self).wf(),
            i < POOL_SIZE,
            !old(self).entities@[i as int].del,
            old(self).entities@[i as int].typ == TYP_ENEMY,
            old(self).entities@[i as int].x + old(self).entities@[i as int].w >= -2,
        ensures
            final(self).wf(),
            final(self).score == old(self).score,
            final(self).random == old(self).random,
            final(self).sound == old(self).sound,
            final(self).entities@ == old(self).entities@.update(
                i as int,
                enemy_stepped(old(self).entities@[i as int]),
            ),
    {
        let mut entity = self.entities[i];
        entity.x -= 2;
        entity.state = entity.state.wrapping_add(1);

        // sprite animation
        if entity.state >= 20 {
            entity.state = 0;
        }
        if entity.state < 20 {
            entity.sprite_x = 19;
        }
        if entity.state < 10 {
            entity.sprite_x = 0;
        }
        self.entities[i] = entity;
    }

    /// One star's per-frame step, exactly `star_stepped` on one fresh draw.
    pub fn update_star(&mut self, i: usize)
        requires
            old(self).wf(),
            i < POOL_SIZE,
            !old(self).entities@[i as int].del,
            old(self).entities@[i as int].typ == TYP_STAR,
            old(self).entities@[i as int].x + old(self).entities@[i as int].w >= -2,
        ensures
            final(self).wf(),
            final(self).score == old(self).score,
            final(self).sound == old(self).sound,
            final(self).random@ == xs_step(old(self).random@),
            final(self).entities@ == old(self).entities@.update(
                i as int,
                star_stepped(
                    old(self).entities@[i as int],
                    xs_out(old(self).random@.0, old(self).random@.1),
                ),
            ),
    {
        let mut entity = self.entities[i];
        entity.state = entity.state.wrapping_add(1);
        entity.sprite_x = self.random.gen_min_max(0, 30) as u8;
        entity.x -= 3 + entity.speed as i16;
        self.entities[i] = entity;
    }

    /// One bullet's per-frame step: move (or retire) it by `bullet_moved`,
    /// then sweep every active enemy it now touches. Each hit frees the
    /// enemy, marks the bullet spent, scores one point, refreshes the score
    /// display, re-arms the two-step "destroy" envelope and appends one
    /// telemetry byte pair. A bullet can strike several overlapping enemies
    /// in the same frame.
    /// One bullet's per-frame step. Past the right bound it is simply
    /// freed: no collision test follows, the frame order being "free if
    /// past the right bound, otherwise test". Otherwise it moves four
    /// pixels right and sweeps every active enemy it now touches: each hit
    /// frees the enemy, marks the bullet spent, scores one point,
    /// refreshes the score display, re-arms the two-step "destroy"
    /// envelope and appends one telemetry byte pair. A bullet can strike
    /// several overlapping enemies in the same frame.
    pub fn update_bullet(&mut self, i: usize, tx: &mut Vec<u8>)
        requires
            old(self).wf(),
            i < POOL_SIZE,
            !old(self).entities@[i as int].del,
            old(self).entities@[i as int].typ == TYP_BULLET,
            old(self).score <= u32::MAX - 200,
        ensures
            final(self).wf(),
            final(self).random == old(self).random,
            ({
                let s = old(self).entities@;
                let b = bullet_moved(s[i as int]);
                if b.del {
                    &&& final(self).entities@ == s.update(i as int, b)
                    &&& final(self).score == old(self).score
                    &&& final(self).sound == old(self).sound
                    &&& final(tx)@ == old(tx)@
                } else {
                    let hits = hit_count(s, b, POOL_SIZE as int);
                    &&& hits <= POOL_SIZE
                    &&& final(self).score == old(self).score + hits
                    &&& final(self).entities@ == (if hits > 0 {
                        digits_refresh(
                            swept_upto(s, b, POOL_SIZE as int),
                            110,
                            1,
                            (old(self).score + hits) as u32,
                        )
                    } else {
                        swept_upto(s, b, POOL_SIZE as int)
                    }).update(
                        i as int,
                        (if hits > 0 {
                            Entity { del: true, ..b }
                        } else {
                            b
                        }),
                    )
                    &&& (hits == 0 ==> final(self).sound == old(self).sound && final(tx)@ == old(
                        tx,
                    )@)
                    &&& (hits > 0 ==> {
                        &&& final(self).sound == (Sound {
                            counter: 0,
                            counter_end: 2,
                            active: true,
                            freqs: old(self).sound.freqs,
                        })
                        &&& final(tx)@ == old(tx)@ + tele_pairs(old(self).score, hits)
                        &&& digit_slots_show(
                            final(self).entities@,
                            110,
                            1,
                            (old(self).score + hits) as u32,
                        )
                    })
                }
            }),
    {
        let ghost s = old(self).entities@;
        let ghost score0 = self.score;
        let mut entity = self.entities[i];
        if entity.x + entity.w * 2 > DISP_W {
            // past the right bound: freed, and that is the whole step
            entity.del = true;
            self.entities[i] = entity;
            return ;
        }
        entity.x = entity.x + 4;
        let ghost b = bullet_moved(s[i as int]);
        proof {
            assert(entity == b);
        }

        // bullet-enemy collision sweep
        let mut j: usize = 0;
        while j < POOL_SIZE
            invariant
                j <= POOL_SIZE,
                i < POOL_SIZE,
                self.wf(),
                old(self).wf(),
                s == old(self).entities@,
                s[i as int].typ == TYP_BULLET,
                !s[i as int].del,
                b == bullet_moved(s[i as int]),
                !b.del,
                score0 == old(self).score,
                score0 <= u32::MAX - 200,
                self.random == old(self).random,
                hit_count(s, b, j as int) <= j,
                self.score == score0 + hit_count(s, b, j as int),
                entity == (if hit_count(s, b, j as int) > 0 {
                    Entity { del: true, ..b }
                } else {
                    b
                }),
                self.entities@ == (if hit_count(s, b, j as int) > 0 {
                    digits_refresh(
                        swept_upto(s, b, j as int),
                        110,
                        1,
                        (score0 + hit_count(s, b, j as int)) as u32,
                    )
                } else {
                    swept_upto(s, b, j as int)
                }),
                hit_count(s, b, j as int) == 0 ==> self.sound == old(self).sound && tx@ == old(
                    tx,
                )@,
                hit_count(s, b, j as int) > 0 ==> {
                    &&& self.sound == (Sound {
                        counter: 0,
                        counter_end: 2,
                        active: true,
                        freqs: old(self).sound.freqs,
                    })
                    &&& tx@ == old(tx)@ + tele_pairs(score0, hit_count(s, b, j as int))
                },
            decreases POOL_SIZE - j,
        {
            let ghost jj = j as int;
            let ghost h = hit_count(s, b, jj);
            let ghost pre = self.entities@;
            proof {
                assert(slot_wf(s[i as int], i as int));
                assert(slot_wf(s[jj], jj));
                assert(slot_wf(self.entities@[jj], jj));
                if !(60 <= jj < 70) {
                    assert(self.entities@[jj] == s[jj]);
                }
            }
            if !self.entities[j].del && self.entities[j].typ == TYP_ENEMY {
                let mut enemy = self.entities[j];
                if self.has_collision(entity, enemy) {
                    enemy.del = true;
                    entity.del = true;
                    // update score
                    self.score += 1;

                    self.sound.trigger(0, 2);

                    let n = self.score;
                    self.write_number(110, 1, n);
                    let low = #[verifier::truncate] (self.score as u8);
                    tx.push(low.wrapping_add(48u8));
                    tx.push(10u8);
                    self.entities[j] = enemy;
                    proof {
                        assert(bullet_hits(s, b, jj));
                        assert(hit_count(s, b, jj + 1) == h + 1);
                        let n1 = (score0 + h) as u32;
                        let n2 = (score0 + h + 1) as u32;
                        // the telemetry pair of this hit
                        assert(tele_pairs(score0, (h + 1) as nat) == tele_pairs(score0, h)
                            + seq![
                            vstd::wrapping::u8_specs::wrapping_add((score0 + h + 1) as u8, 48),
                            10u8,
                        ]);
                        assert(tx@ =~= old(tx)@ + tele_pairs(score0, (h + 1) as nat));
                        // the display refresh composes into one refresh with
                        // the final value
                        lemma_digits_used_monotone(n1, n2);
                        if h > 0 {
                            assert forall|k: int| 0 <= k < pre.len() implies digits_refresh(
                                pre,
                                110,
                                1,
                                n2,
                            )[k] == digits_refresh(swept_upto(s, b, jj), 110, 1, n2)[k] by {
                                if 60 <= k < 70 {
                                    lemma_digit_refreshed_twice(
                                        swept_upto(s, b, jj)[k],
                                        k - 60,
                                        110,
                                        1,
                                        n1,
                                        n2,
                                    );
                                }
                            }
                            assert(digits_refresh(pre, 110, 1, n2) =~= digits_refresh(
                                swept_upto(s, b, jj),
                                110,
                                1,
                                n2,
                            ));
                        }
                        // freeing the struck enemy extends the sweep by one
                        assert(digits_refresh(swept_upto(s, b, jj), 110, 1, n2).update(
                            jj,
                            enemy,
                        ) =~= digits_refresh(swept_upto(s, b, jj + 1), 110, 1, n2));
                    }
                } else {
                    self.entities[j] = enemy;
                    proof {
                        assert(!bullet_hits(s, b, jj));
                        assert(self.entities@ =~= pre);
                        assert(swept_upto(s, b, jj) =~= swept_upto(s, b, jj + 1));
                    }
                }
            } else {
                proof {
                    assert(!bullet_hits(s, b, jj));
                    assert(swept_upto(s, b, jj) =~= swept_upto(s, b, jj + 1));
                }
            }
            proof {
                assert(hit_count(s, b, jj + 1) == hit_count(s, b, jj) + (
                if bullet_hits(s, b, jj) {
                    1nat
                } else {
                    0nat
                }));
                if hit_count(s, b, jj + 1) > 0 && hit_count(s, b, jj + 1) == h {
                    assert(swept_upto(s, b, jj) =~= swept_upto(s, b, jj + 1));
                    assert(digits_refresh(swept_upto(s, b, jj), 110, 1, (score0 + h) as u32)
                        =~= digits_refresh(swept_upto(s, b, jj + 1), 110, 1, (score0 + h) as u32));
                }
            }
            j += 1;
        }
        self.entities[i] = entity;
        proof {
            assert(slot_wf(s[i as int], i as int));
            let hits = hit_count(s, b, POOL_SIZE as int);
            if hits > 0 {
                assert(digit_slots_show(
                    self.entities@,
                    110,
                    1,
                    (score0 + hits) as u32,
                )) by {
                    assert forall|m: int| 60 <= m < 70 implies #[trigger] self.entities@[m]
                        == digit_refreshed(
                        swept_upto(s, b, POOL_SIZE as int)[m],
                        m - 60,
                        110,
                        1,
                        (score0 + hits) as u32,
                    ) by {
                        assert(self.entities@[m] == digits_refresh(
                            swept_upto(s, b, POOL_SIZE as int),
                            110,
                            1,
                            (score0 + hits) as u32,
                        )[m]);
                    }
                }
            }
        }
    }

    /// The player's per-frame step. Contact with any active enemy defeats
    /// the player on the spot: the score resets to zero and nothing else
    /// moves (the caller then discards and rebuilds the world). Otherwise
    /// the ship moves by the axis inputs, takes the matching pose, stays
    /// clamped on-display, and a rising fire edge spawns a bullet at the
    /// muzzle and arms the two-tone "shoot" envelope from two fresh draws.
    pub fn update_player(&mut self, i: usize, input: PlayerInput) -> (defeated: bool)
        requires
            old(self).wf(),
            i < POOL_SIZE,
            !old(self).entities@[i as int].del,
            old(self).entities@[i as int].typ == TYP_PLAYER,
            -1 <= input.x_move <= 1,
            -1 <= input.y_move <= 1,
        ensures
            final(self).wf(),
            ({
                let s = old(self).entities@;
                let p = s[i as int];
                &&& defeated == exists|j: int|
                    0 <= j < POOL_SIZE as int && #[trigger] bullet_hits(s, p, j)
                &&& defeated ==> {
                    &&& final(self).score == 0
                    &&& final(self).entities@ == s
                    &&& final(self).sound == old(self).sound
                    &&& final(self).random == old(self).random
                }
                &&& !defeated ==> {
                    let stepped = player_stepped(p, input);
                    let fire = input.a_btn_on && input.a_btn_changed;
                    &&& final(self).score == old(self).score
                    &&& if fire && (exists|j: int|
                        0 <= j < POOL_SIZE as int && is_free_of(s, j, TYP_BULLET)) {
                        &&& exists|j: int|
                            {
                                &&& 0 <= j < POOL_SIZE as int
                                &&& is_first_free_of(s, j, TYP_BULLET)
                                &&& final(self).entities@ == s.update(
                                    j,
                                    bullet_fired(stepped, s[j]),
                                ).update(i as int, stepped)
                            }
                        &&& final(self).random@ == xs_step(xs_step(old(self).random@))
                        &&& final(self).sound.counter == 3
                        &&& final(self).sound.counter_end == 4
                        &&& final(self).sound.active
                        &&& final(self).sound.freqs@ == old(self).sound.freqs@.update(
                            3,
                            range_map(
                                xs_out(old(self).random@.0, old(self).random@.1),
                                3400,
                                3700,
                            ) as u32,
                        ).update(
                            4,
                            range_map(
                                xs_out(xs_step(old(self).random@).0, xs_step(old(self).random@).1),
                                2800,
                                3000,
                            ) as u32,
                        )
                    } else {
                        &&& final(self).entities@ == s.update(i as int, stepped)
                        &&& final(self).random == old(self).random
                        &&& final(self).sound == old(self).sound
                    }
                }
            }),
    {
        let ghost s = old(self).entities@;
        let entity0 = self.entities[i];

        // contact with any active enemy ends the run at once
        let mut j: usize = 0;
        while j < POOL_SIZE
            invariant
                j <= POOL_SIZE,
                i < POOL_SIZE,
                old(self).wf(),
                self.entities@ == s,
                s == old(self).entities@,
                self.score == old(self).score,
                self.random == old(self).random,
                self.sound == old(self).sound,
                entity0 == s[i as int],
                !entity0.del,
                entity0.typ == TYP_PLAYER,
                forall|k: int| 0 <= k < j as int ==> !(#[trigger] bullet_hits(s, entity0, k)),
            decreases POOL_SIZE - j,
        {
            proof {
                assert(slot_wf(s[i as int], i as int));
                assert(slot_wf(s[j as int], j as int));
            }
            if !self.entities[j].del && self.entities[j].typ == TYP_ENEMY {
                let enemy = self.entities[j];
                if self.has_collision(entity0, enemy) {
                    self.score = 0;
                    proof {
                        assert(bullet_hits(s, entity0, j as int));
                    }
                    return true;
                }
            }
            proof {
                assert(!bullet_hits(s, entity0, j as int));
            }
            j += 1;
        }

        let mut entity = self.entities[i];
        proof {
            assert(slot_wf(s[i as int], i as int));
        }
        entity.x = entity.x + input.x_move * 2;
        entity.y = entity.y + input.y_move * 2;

        if input.y_move > 0 {
            entity.sprite_y = 43;
        }
        if input.y_move < 0 {
            entity.sprite_y = 53;
        }
        if input.y_move == 0 {
            entity.sprite_y = 33;
        }

        // dont allow player move outside canvas
        if entity.x < 0 {
            entity.x = 0;
        }
        if entity.x + entity.w > DISP_W {
            entity.x = DISP_W - entity.w;
        }
        if entity.y < 0 {
            entity.y = 0;
        }
        if entity.y + entity.h > DISP_H {
            entity.y = DISP_H - entity.h;
        }
        proof {
            assert(entity == player_stepped(s[i as int], input));
        }

        // on key press, shoot a bullet
        if input.a_btn_on && input.a_btn_changed {
            match self.find_free(TYP_BULLET) {
                Some(k) => {
                    proof {
                        assert(slot_wf(s[k as int], k as int));
                    }
                    let mut bullet = self.entities[k];
                    bullet.del = false;
                    bullet.x = entity.x + entity.w + 1;
                    bullet.y = entity.y + entity.h / 2 - bullet.h / 2;
                    self.entities[k] = bullet;

                    let f3 = self.random.gen_min_max(3400, 3700) as u32;
                    self.sound.freqs[3] = f3;
                    let f4 = self.random.gen_min_max(2800, 3000) as u32;
                    self.sound.freqs[4] = f4;
                    self.sound.trigger(3, 4);
                    proof {
                        assert(is_first_free_of(s, k as int, TYP_BULLET));
                        assert(self.entities@ == s.update(
                            k as int,
                            bullet_fired(player_stepped(s[i as int], input), s[k as int]),
                        ));
                    }
                },
                None => {},
            }
        }

        self.entities[i] = entity;
        false
    }

    /// One frame of the simulation, in its fixed order: the enemy spawn
    /// roll, the clear-wave consumption, the star spawn roll, then one pass
    /// over all active slots in index order — off-screen retirement first,
    /// then the per-kind step. Returns 1 the moment the player touches an
    /// enemy (the score is reset and the frame stops there; the caller
    /// rebuilds the world) and 0 otherwise. Telemetry bytes are appended to
    /// `tx` in newline-terminated pairs, one per bullet hit; the caller
    /// forwards them to the serial collaborator.
    /// One frame of the simulation, in its fixed order: the enemy spawn
    /// roll, the clear-wave consumption, the star spawn roll, then one pass
    /// over all active slots in index order — off-screen retirement first,
    /// then the per-kind step. Returns 1 the moment the player touches an
    /// enemy (the score is reset and the frame stops there; the caller
    /// rebuilds the world) and 0 otherwise. Telemetry bytes are appended to
    /// `tx` in newline-terminated pairs, one per bullet hit; the caller
    /// forwards them to the serial collaborator. The final state, the
    /// status and the appended bytes are exactly `spec_tick` of the
    /// starting state, the input and the pending signal.
    pub fn tick(&mut self, input: PlayerInput, wave: &mut ClearWave, tx: &mut Vec<u8>) -> (status:
        u16)
        requires
            old(self).wf(),
            -1 <= input.x_move <= 1,
            -1 <= input.y_move <= 1,
            old(self).score <= 0xFFF0_0000u32,
        ensures
            final(self).wf(),
            ({
                let fin = spec_tick(*old(self), input, old(wave).pending);
                &&& final(self).entities@ == fin.ents
                &&& final(self).random@ == fin.rng
                &&& final(self).score as int == fin.score
                &&& final(self).sound.counter == fin.snd_counter
                &&& final(self).sound.counter_end == fin.snd_end
                &&& final(self).sound.active == fin.snd_active
                &&& final(self).sound.freqs@ == fin.snd_freqs
                &&& final(tx)@ == old(tx)@ + fin.tele
                &&& status == fin.status
            }),
            status == 0 || status == 1,
            status == 1 ==> final(self).score == 0,
            final(self).score <= old(self).score + 400,
            !final(wave).pending,
            final(tx)@.len() >= old(tx)@.len(),
            forall|k: int| 0 <= k < old(tx)@.len() ==> final(tx)@[k] == old(tx)@[k],
            (final(tx)@.len() - old(tx)@.len()) % 2 == 0,
            forall|k: int|
                old(tx)@.len() <= k < final(tx)@.len() && (k - old(tx)@.len()) % 2 == 1
                    ==> final(tx)@[k] == 10u8,
    {
        let ghost st0 = frame_of(*old(self));
        let ghost pend = wave.pending;

        // spawn new enemies
        self.spawn_enemy();
        let ghost st1 = spec_spawn_enemy(st0);
        proof {
            if range_map(xs_out(st0.rng.0, st0.rng.1), 0, 1000) < 100 + st0.score {
                if exists|j: int|
                    0 <= j < POOL_SIZE as int && is_free_of(st0.ents, j, TYP_ENEMY) {
                    let j0 = choose|j: int|
                        {
                            &&& 0 <= j < POOL_SIZE as int
                            &&& is_first_free_of(st0.ents, j, TYP_ENEMY)
                            &&& self.entities@ == st0.ents.update(
                                j,
                                (Entity {
                                    del: false,
                                    x: 117,
                                    y: range_map(
                                        xs_out(xs_step(st0.rng).0, xs_step(st0.rng).1),
                                        0,
                                        56,
                                    ) as i16,
                                    ..st0.ents[j]
                                }),
                            )
                        };
                    let j1 = choose|j: int|
                        0 <= j < POOL_SIZE as int && #[trigger] is_first_free_of(
                            st0.ents,
                            j,
                            TYP_ENEMY,
                        );
                    lemma_first_free_unique(st0.ents, TYP_ENEMY, j0, j1);
                }
            }
            assert(st1.ents == self.entities@ && st1.rng == self.random@);
        }

        self.apply_clear_wave(wave);
        let ghost st2 = spec_clear_wave(st1, pend);
        proof {
            if pend {
                assert(st2.ents =~= self.entities@);
            }
            assert(st2.ents == self.entities@ && st2.rng == self.random@);
        }

        // stars
        self.spawn_star();
        let ghost st3 = spec_spawn_star(st2);
        proof {
            if xs_out(st2.rng.0, st2.rng.1) < u64::MAX / 3 {
                if exists|j: int| 0 <= j < POOL_SIZE as int && is_free_of(st2.ents, j, TYP_STAR) {
                    let j0 = choose|j: int|
                        {
                            &&& 0 <= j < POOL_SIZE as int
                            &&& is_first_free_of(st2.ents, j, TYP_STAR)
                            &&& self.entities@ == st2.ents.update(
                                j,
                                (Entity {
                                    del: false,
                                    x: 126,
                                    y: range_map(
                                        xs_out(xs_step(st2.rng).0, xs_step(st2.rng).1),
                                        0,
                                        63,
                                    ) as i16,
                                    speed: star_tier(
                                        xs_out(
                                            xs_step(xs_step(st2.rng)).0,
                                            xs_step(xs_step(st2.rng)).1,
                                        ),
                                    ),
                                    ..st2.ents[j]
                                }),
                            )
                        };
                    let j1 = choose|j: int|
                        0 <= j < POOL_SIZE as int && #[trigger] is_first_free_of(
                            st2.ents,
                            j,
                            TYP_STAR,
                        );
                    lemma_first_free_unique(st2.ents, TYP_STAR, j0, j1);
                }
            }
            assert(st3.ents == self.entities@ && st3.rng == self.random@);
        }

        let ghost tx0 = tx@;
        let ghost score_in = old(self).score;
        let ghost mut mdl = st3;

        // update
        let mut i: usize = 0;
        while i < POOL_SIZE
            invariant
                i <= POOL_SIZE,
                self.wf(),
                !wave.pending,
                -1 <= input.x_move <= 1,
                -1 <= input.y_move <= 1,
                score_in <= 0xFFF0_0000u32,
                self.score <= score_in + 100 * (if i as int >= 5 {
                    4int
                } else if i as int >= 1 {
                    i as int - 1
                } else {
                    0int
                }),
                tx0 == old(tx)@,
                tx@.len() >= tx0.len(),
                forall|k: int| 0 <= k < tx0.len() ==> tx@[k] == tx0[k],
                (tx@.len() - tx0.len()) % 2 == 0,
                forall|k: int|
                    tx0.len() <= k < tx@.len() && (k - tx0.len()) % 2 == 1 ==> tx@[k] == 10u8,
                spec_tick(*old(self), input, old(wave).pending) == spec_pass(st3, input, 0),
                spec_pass(st3, input, 0) == spec_pass(mdl, input, i as int),
                mdl.status == 0,
                mdl.ents == self.entities@,
                mdl.rng == self.random@,
                mdl.score == self.score as int,
                mdl.snd_counter == self.sound.counter,
                mdl.snd_end == self.sound.counter_end,
                mdl.snd_active == self.sound.active,
                mdl.snd_freqs == self.sound.freqs@,
                tx@ == tx0 + mdl.tele,
            decreases POOL_SIZE - i,
        {
            let ghost ii = i as int;
            let ghost pre_mdl = mdl;
            proof {
                assert(spec_pass(pre_mdl, input, ii) == spec_pass(
                    spec_slot(pre_mdl, ii, input),
                    input,
                    ii + 1,
                ));
            }
            if !self.entities[i].del {
                proof {
                    assert(slot_wf(self.entities@[ii], ii));
                }
                let entity = self.entities[i];

                if entity.x + entity.w < -2 {
                    self.retire_offscreen(i);
                    proof {
                        mdl = spec_retire(pre_mdl, ii);
                        assert(spec_slot(pre_mdl, ii, input) == mdl);
                    }
                } else {
                    // bullets updates
                    if entity.typ == TYP_BULLET {
                        let ghost ents = self.entities@;
                        let ghost score_before = self.score;
                        let ghost tx_before = tx@;
                        self.update_bullet(i, tx);
                        proof {
                            let b = bullet_moved(ents[ii]);
                            let hits = hit_count(ents, b, POOL_SIZE as int);
                            lemma_tele_pairs_shape(score_before, hits);
                            mdl = spec_bullet(pre_mdl, ii);
                            if !b.del && hits > 0 {
                                assert(tx@ =~= tx0 + (pre_mdl.tele + tele_pairs(
                                    pre_mdl.score as u32,
                                    hits,
                                )));
                            }
                            assert(spec_slot(pre_mdl, ii, input) == mdl);
                        }
                    }

                    // player updates
                    if entity.typ == TYP_PLAYER {
                        if self.update_player(i, input) {
                            proof {
                                mdl = spec_player(pre_mdl, ii, input);
                                assert(mdl.status == 1);
                                assert(spec_slot(pre_mdl, ii, input) == mdl);
                                lemma_pass_stopped(mdl, input, ii + 1);
                                assert(spec_tick(*old(self), input, old(wave).pending) == mdl);
                            }
                            return 1u16;
                        }
                        proof {
                            let stepped = player_stepped(pre_mdl.ents[ii], input);
                            let fire = input.a_btn_on && input.a_btn_changed;
                            if fire && (exists|j: int|
                                0 <= j < POOL_SIZE as int && is_free_of(
                                    pre_mdl.ents,
                                    j,
                                    TYP_BULLET,
                                )) {
                                let j0 = choose|j: int|
                                    {
                                        &&& 0 <= j < POOL_SIZE as int
                                        &&& is_first_free_of(pre_mdl.ents, j, TYP_BULLET)
                                        &&& self.entities@ == pre_mdl.ents.update(
                                            j,
                                            bullet_fired(stepped, pre_mdl.ents[j]),
                                        ).update(ii, stepped)
                                    };
                                let j1 = choose|j: int|
                                    0 <= j < POOL_SIZE as int && #[trigger] is_first_free_of(
                                        pre_mdl.ents,
                                        j,
                                        TYP_BULLET,
                                    );
                                lemma_first_free_unique(pre_mdl.ents, TYP_BULLET, j0, j1);
                            }
                            mdl = spec_player(pre_mdl, ii, input);
                            assert(spec_slot(pre_mdl, ii, input) == mdl);
                        }
                    }

                    // enemy updates
                    if entity.typ == TYP_ENEMY {
                        self.update_enemy(i);
                        proof {
                            mdl = spec_slot(pre_mdl, ii, input);
                        }
                    }

                    // stars update
                    if entity.typ == TYP_STAR {
                        self.update_star(i);
                        proof {
                            mdl = spec_slot(pre_mdl, ii, input);
                        }
                    }
                }
            } else {
                proof {
                    assert(spec_slot(pre_mdl, ii, input) == pre_mdl);
                }
            }
            proof {
                mdl = spec_slot(pre_mdl, ii, input);
            }
            i += 1;
        }
        proof {
            assert(spec_pass(mdl, input, POOL_SIZE as int) == mdl);
            assert(spec_tick(*old(self), input, old(wave).pending) == mdl);
        }
        0u16
    }
}

/// The telemetry of `k` hits is `k` byte pairs, every second byte a newline.
proof fn lemma_tele_pairs_shape(score0: u32, k: nat)
    ensures
        tele_pairs(score0, k).len() == 2 * k,
        forall|m: int| 0 <= m < 2 * k && m % 2 == 1 ==> tele_pairs(score0, k)[m] == 10u8,
    decreases k,
{
    if k > 0 {
        lemma_tele_pairs_shape(score0, (k - 1) as nat);
    }
}

} // verus!
