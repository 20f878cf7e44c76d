use arcade_core::entities::{TYP_BULLET, TYP_ENEMY, TYP_STAR};
use arcade_core::world::{ClearWave, PlayerInput, World, POOL_SIZE};

fn idle_input() -> PlayerInput {
    PlayerInput { x_move: 0, y_move: 0, a_btn_on: false, a_btn_changed: false }
}

#[test]
fn new_world_layout() {
    let w = World::new(52);
    assert_eq!(w.score, 0);
    assert!(!w.sound.active);
    // bullet pool
    for i in 1..5 {
        assert!(w.entities[i].del);
        assert_eq!(w.entities[i].typ, TYP_BULLET);
        assert_eq!(w.entities[i].w, 2);
        assert_eq!(w.entities[i].h, 2);
    }
    // enemy pool
    for i in 10..40 {
        assert!(w.entities[i].del);
        assert_eq!(w.entities[i].typ, TYP_ENEMY);
        assert_eq!(w.entities[i].w, 11);
        assert_eq!(w.entities[i].h, 8);
    }
    // star pool, seeded on the slow tier until a spawn draws one
    for i in 40..50 {
        assert!(w.entities[i].del);
        assert_eq!(w.entities[i].typ, TYP_STAR);
        assert_eq!(w.entities[i].speed, 1);
    }
    // the one player slot, centred vertically
    let p = w.entities[51];
    assert!(!p.del);
    assert_eq!((p.x, p.y, p.w, p.h), (20, 27, 12, 10));
    assert_eq!(p.sprite_y, 33);
}

// The pool never hands out an active slot, and reports exhaustion only
// when the kind really is exhausted.
#[test]
fn pool_never_double_allocates() {
    let mut w = World::new(3);
    // exhaust the bullet pool
    for i in 1..5 {
        w.entities[i].del = false;
    }
    assert_eq!(w.find_free(TYP_BULLET), None);
    // free one slot: it is found again, and it is genuinely free
    w.entities[3].del = true;
    let got = w.find_free(TYP_BULLET);
    assert_eq!(got, Some(3));
    assert!(w.entities[3].del);
    // a full enemy pool is silently exhausted too
    for i in 10..40 {
        w.entities[i].del = false;
        w.entities[i].x = 117;
        w.entities[i].y = 0;
    }
    assert_eq!(w.find_free(TYP_ENEMY), None);
}

// Scenario: seed 52, a bullet fully overlapping an enemy. The next tick
// frees both, the score rises by exactly one, the destroy envelope is
// armed over slots 0..=2, and one telemetry byte pair goes out.
#[test]
fn bullet_hit_scores_and_arms_destroy_envelope() {
    let mut w = World::new(52);
    let mut wave = ClearWave::new();
    let mut tx: Vec<u8> = Vec::new();

    w.entities[10].del = false;
    w.entities[10].x = 60;
    w.entities[10].y = 5;
    w.entities[1].del = false;
    w.entities[1].x = 60;
    w.entities[1].y = 5;

    let status = w.tick(idle_input(), &mut wave, &mut tx);
    assert_eq!(status, 0);
    assert_eq!(w.score, 1);
    assert!(w.entities[1].del, "bullet spent");
    assert!(w.entities[10].del, "enemy destroyed");
    assert!(w.sound.active);
    assert_eq!(w.sound.counter, 0);
    assert_eq!(w.sound.counter_end, 2);
    assert_eq!(tx, vec![b'1', b'\n']);
    // the score display shows a single digit 1
    assert!(!w.entities[60].del);
    assert_eq!(w.entities[60].sprite_x, 8);
    assert!(w.entities[61].del);
}

// Scenario: a player box merely edge-adjacent to an enemy box already
// counts as contact: the tick reports defeat and the score resets to 0.
#[test]
fn edge_adjacent_enemy_defeats_player() {
    let mut w = World::new(9);
    let mut wave = ClearWave::new();
    let mut tx: Vec<u8> = Vec::new();
    w.score = 7;

    // after its 2-pixel drift this enemy's box starts exactly where the
    // player's box ends
    w.entities[10].del = false;
    w.entities[10].x = 34;
    w.entities[10].y = 27;

    let status = w.tick(idle_input(), &mut wave, &mut tx);
    assert_eq!(status, 1);
    assert_eq!(w.score, 0);
}

// Score decreases only when an enemy escapes past the left margin, and is
// floored at zero.
#[test]
fn enemy_escape_decrements_score_floored_at_zero() {
    // with a score of 2 the escape costs one point
    let mut w = World::new(5);
    let mut wave = ClearWave::new();
    let mut tx: Vec<u8> = Vec::new();
    w.score = 2;
    w.entities[10].del = false;
    w.entities[10].x = -14;  // right edge at -3, past the -2 margin
    w.entities[10].y = 0;
    let status = w.tick(idle_input(), &mut wave, &mut tx);
    assert_eq!(status, 0);
    assert_eq!(w.score, 1);
    assert!(w.entities[10].del);

    // at zero the score stays put
    let mut w = World::new(5);
    w.entities[10].del = false;
    w.entities[10].x = -14;
    w.entities[10].y = 0;
    let status = w.tick(idle_input(), &mut wave, &mut tx);
    assert_eq!(status, 0);
    assert_eq!(w.score, 0);
    assert!(w.entities[10].del);

    // an escaping star costs nothing
    let mut w = World::new(5);
    w.score = 3;
    w.entities[40].del = false;
    w.entities[40].x = -10;
    w.entities[40].y = 0;
    let status = w.tick(idle_input(), &mut wave, &mut tx);
    assert_eq!(status, 0);
    assert_eq!(w.score, 3);
}

// The one-shot clear-wave signal frees every active enemy and resets.
#[test]
fn clear_wave_frees_all_enemies_once() {
    let mut w = World::new(11);
    let mut wave = ClearWave::new();
    let mut tx: Vec<u8> = Vec::new();
    w.entities[12].del = false;
    w.entities[12].x = 100;
    w.entities[12].y = 10;
    w.entities[13].del = false;
    w.entities[13].x = 90;
    w.entities[13].y = 40;
    wave.raise();
    assert!(wave.pending);

    let status = w.tick(idle_input(), &mut wave, &mut tx);
    assert_eq!(status, 0);
    assert!(!wave.pending, "signal consumed");
    assert!(w.entities[12].del);
    assert!(w.entities[13].del);
}

// A rising fire edge spawns one bullet at the muzzle and arms the shoot
// envelope with two freshly drawn frequencies in their bands.
#[test]
fn fire_edge_spawns_bullet_and_arms_shoot_envelope() {
    let mut w = World::new(21);
    let mut wave = ClearWave::new();
    let mut tx: Vec<u8> = Vec::new();
    let input = PlayerInput { x_move: 0, y_move: 0, a_btn_on: true, a_btn_changed: true };

    let status = w.tick(input, &mut wave, &mut tx);
    assert_eq!(status, 0);
    let b = w.entities[1];
    assert!(!b.del, "first free bullet slot activated");
    assert_eq!(b.x, 20 + 12 + 1);
    assert_eq!(b.y, 27 + 5 - 1);
    assert!(w.sound.active);
    assert_eq!(w.sound.counter, 3);
    assert_eq!(w.sound.counter_end, 4);
    assert!(w.sound.freqs[3] >= 3400 && w.sound.freqs[3] < 3700);
    assert!(w.sound.freqs[4] >= 2800 && w.sound.freqs[4] < 3000);

    // holding the button without an edge spawns nothing further
    let held = PlayerInput { x_move: 0, y_move: 0, a_btn_on: true, a_btn_changed: false };
    let _ = w.tick(held, &mut wave, &mut tx);
    let active_bullets = (1..5).filter(|&i| !w.entities[i].del).count();
    assert_eq!(active_bullets, 1);
}

// The player stays clamped to the display whatever the input pushes.
#[test]
fn player_clamped_to_display() {
    let mut w = World::new(2);
    let mut wave = ClearWave::new();
    let mut tx: Vec<u8> = Vec::new();
    let left_up = PlayerInput { x_move: -1, y_move: -1, a_btn_on: false, a_btn_changed: false };
    for _ in 0..80 {
        // keep the run alive: drop any enemy the spawn roll produced
        for i in 10..40 {
            w.entities[i].del = true;
        }
        let status = w.tick(left_up, &mut wave, &mut tx);
        assert_eq!(status, 0);
        let p = w.entities[51];
        assert!(p.x >= 0 && p.x + p.w <= 128);
        assert!(p.y >= 0 && p.y + p.h <= 64);
    }
    assert_eq!(w.entities[51].x, 0);
    assert_eq!(w.entities[51].y, 0);
    assert_eq!(w.entities[51].sprite_y, 53, "up pose selected");
}

// Score 105 through the digit-refresh procedure: exactly three digit
// slots active, showing 5, 0, 1 at increasing leftward offsets.
#[test]
fn write_number_105_shows_three_digits() {
    let mut w = World::new(1);
    w.write_number(110, 1, 105);
    let active: Vec<usize> = (60..70).filter(|&i| !w.entities[i].del).collect();
    assert_eq!(active, vec![60, 61, 62]);
    // least significant first: 5, 0, 1
    assert_eq!(w.entities[60].x, 110);
    assert_eq!(w.entities[60].sprite_x, 40);
    assert_eq!(w.entities[60].sprite_y, 8);
    assert_eq!(w.entities[61].x, 102);
    assert_eq!(w.entities[61].sprite_x, 0);
    assert_eq!(w.entities[61].sprite_y, 0);
    assert_eq!(w.entities[62].x, 94);
    assert_eq!(w.entities[62].sprite_x, 8);
    assert_eq!(w.entities[62].sprite_y, 0);
    for i in 63..70 {
        assert!(w.entities[i].del);
    }
    // y anchor carried to every active digit
    assert_eq!(w.entities[60].y, 1);
    assert_eq!(w.entities[62].y, 1);
}

// A zero score still shows one digit.
#[test]
fn write_number_zero_shows_one_digit() {
    let mut w = World::new(1);
    w.write_number(110, 1, 0);
    let active = (60..70).filter(|&i| !w.entities[i].del).count();
    assert_eq!(active, 1);
    assert_eq!(w.entities[60].sprite_x, 0);
    assert_eq!(w.entities[60].sprite_y, 0);
}

// The pool holds its capacity: ticking a crowded world never grows it and
// never breaks the fixed slot count.
#[test]
fn pool_capacity_is_fixed() {
    let mut w = World::new(7);
    let mut wave = ClearWave::new();
    let mut tx: Vec<u8> = Vec::new();
    assert_eq!(w.entities.len(), POOL_SIZE);
    for _ in 0..30 {
        for i in 10..40 {
            w.entities[i].del = true;  // keep the player alive
        }
        let fire = PlayerInput { x_move: 1, y_move: 1, a_btn_on: true, a_btn_changed: true };
        let _ = w.tick(fire, &mut wave, &mut tx);
        assert_eq!(w.entities.len(), POOL_SIZE);
        let bullets = (0..POOL_SIZE).filter(|&i| !w.entities[i].del
            && w.entities[i].typ == TYP_BULLET).count();
        assert!(bullets <= 4);
    }
}

// The collision predicate is symmetric, and boxes that merely touch count.
#[test]
fn collision_is_symmetric_and_edge_inclusive() {
    let w = World::new(1);
    let mut a = w.entities[51];
    a.x = 10;
    a.y = 10;
    a.w = 5;
    a.h = 5;
    let mut b = a;

    // overlapping
    b.x = 12;
    b.y = 12;
    assert!(w.has_collision(a, b));
    assert_eq!(w.has_collision(a, b), w.has_collision(b, a));

    // edge-adjacent: a's right edge exactly on b's left edge
    b.x = 15;
    b.y = 10;
    assert!(w.has_collision(a, b));
    assert_eq!(w.has_collision(a, b), w.has_collision(b, a));

    // corner-adjacent
    b.x = 15;
    b.y = 15;
    assert!(w.has_collision(a, b));
    assert_eq!(w.has_collision(a, b), w.has_collision(b, a));

    // one pixel apart: no contact, in both orders
    b.x = 16;
    b.y = 10;
    assert!(!w.has_collision(a, b));
    assert_eq!(w.has_collision(a, b), w.has_collision(b, a));
}

// A bullet that passes the right bound is freed without a collision test:
// the frame order is "free if past the right bound, otherwise test", so an
// enemy overlapping its last position survives.
#[test]
fn bullet_past_right_bound_retires_without_sweeping() {
    let mut w = World::new(13);
    let mut wave = ClearWave::new();
    let mut tx: Vec<u8> = Vec::new();

    w.entities[1].del = false;
    w.entities[1].x = 125;  // x + 2w = 129 > 128: past the bound
    w.entities[1].y = 20;
    w.entities[10].del = false;
    w.entities[10].x = 120;  // overlaps the bullet's box
    w.entities[10].y = 18;

    let status = w.tick(idle_input(), &mut wave, &mut tx);
    assert_eq!(status, 0);
    assert!(w.entities[1].del, "bullet retired");
    assert!(!w.entities[10].del, "enemy untouched by the retired bullet");
    assert_eq!(w.score, 0);
    assert!(tx.is_empty());
    assert!(!w.sound.active);
}

// A spawned star carries a freshly drawn speed tier.
#[test]
fn spawned_stars_carry_drawn_speed_tiers() {
    let mut w = World::new(17);
    let mut wave = ClearWave::new();
    let mut tx: Vec<u8> = Vec::new();
    let mut seen_star = false;
    for _ in 0..40 {
        for i in 10..40 {
            w.entities[i].del = true;  // keep the run alive
        }
        let _ = w.tick(idle_input(), &mut wave, &mut tx);
        for i in 40..50 {
            if !w.entities[i].del {
                seen_star = true;
                assert!(w.entities[i].speed == 1 || w.entities[i].speed == 2);
            }
        }
    }
    assert!(seen_star, "the one-in-three roll spawns stars within 40 frames");
}

// Refreshing the display twice with the same value leaves the identical
// digit slots: the refresh is a function of its arguments.
#[test]
fn repeated_refresh_is_idempotent() {
    let mut w = World::new(1);
    w.write_number(110, 1, 105);
    let first: Vec<_> = (60..70).map(|i| {
        let e = w.entities[i];
        (e.x, e.y, e.del, e.sprite_x, e.sprite_y, e.typ, e.w, e.h, e.state, e.speed)
    }).collect();
    w.write_number(110, 1, 105);
    let second: Vec<_> = (60..70).map(|i| {
        let e = w.entities[i];
        (e.x, e.y, e.del, e.sprite_x, e.sprite_y, e.typ, e.w, e.h, e.state, e.speed)
    }).collect();
    assert_eq!(first, second);
}
