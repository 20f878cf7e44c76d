use arcade_core::input::{fire_state, x_axis_from_adc, y_axis_from_adc};
use arcade_core::render::render;
use arcade_core::world::{ClearWave, PlayerInput, World};

// Every rendered pixel stays inside the display's tolerated range: never
// negative, never beyond the dimension itself (the documented inclusive
// upper edge).
#[test]
fn renderer_never_writes_out_of_range() {
    let mut w = World::new(31);
    let mut wave = ClearWave::new();
    let mut tx: Vec<u8> = Vec::new();
    w.write_number(110, 1, 987654321);
    let fire = PlayerInput { x_move: 1, y_move: 1, a_btn_on: true, a_btn_changed: true };
    for _ in 0..40 {
        for i in 10..40 {
            w.entities[i].del = true;  // keep the run alive
        }
        let _ = w.tick(fire, &mut wave, &mut tx);
        let pix = render(&w);
        assert!(!pix.is_empty());
        for p in &pix {
            assert!(p.x <= 128);
            assert!(p.y <= 64);
        }
    }
}

// The decode puts glyph bits where they belong: the player's idle sprite
// lights its top-left corner, and a written digit 1 lights its stem but
// not its empty left margin.
#[test]
fn renderer_decodes_expected_pixels() {
    let mut w = World::new(1);
    w.write_number(110, 1, 1);
    let pix = render(&w);
    let has = |x: u16, y: u16| pix.iter().any(|p| p.x == x && p.y == y);
    // the player sits at (20, 27) and its first sprite row starts lit
    assert!(has(20, 27));
    assert!(has(21, 27));
    // digit 1 at anchor (110, 1): its stem is three pixels in, its left
    // margin dark
    assert!(has(113, 1));
    assert!(!has(110, 1));
}

// A freed slot paints nothing.
#[test]
fn renderer_skips_free_slots() {
    let mut w = World::new(1);
    let before = render(&w).len();
    w.entities[10].del = false;
    w.entities[10].x = 60;
    w.entities[10].y = 20;
    let with_enemy = render(&w).len();
    assert!(with_enemy > before);
    w.entities[10].del = true;
    assert_eq!(render(&w).len(), before);
}

// Axis dead zones and signs, exactly as sampled by the frame loop.
#[test]
fn axis_dead_zone_and_signs() {
    assert_eq!(y_axis_from_adc(300), 1);
    assert_eq!(y_axis_from_adc(399), 1);
    assert_eq!(y_axis_from_adc(400), 0);
    assert_eq!(y_axis_from_adc(1500), 0);
    assert_eq!(y_axis_from_adc(2500), 0);
    assert_eq!(y_axis_from_adc(2501), -1);
    assert_eq!(y_axis_from_adc(4095), -1);

    assert_eq!(x_axis_from_adc(300), -1);
    assert_eq!(x_axis_from_adc(2000), 0);
    assert_eq!(x_axis_from_adc(2600), 1);
}

// The fire edge is the change of the button's level between two frames.
#[test]
fn fire_edge_on_level_change() {
    assert_eq!(fire_state(false, true), (true, true));
    assert_eq!(fire_state(true, true), (true, false));
    assert_eq!(fire_state(true, false), (false, true));
    assert_eq!(fire_state(false, false), (false, false));
}
