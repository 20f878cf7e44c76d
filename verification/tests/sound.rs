use arcade_core::sound::{Sound, ToneCmd};

#[test]
fn new_sound_is_silent_with_default_table() {
    let s = Sound::new();
    assert!(!s.active);
    assert_eq!(s.counter, 0);
    assert_eq!(s.counter_end, 3);
    assert_eq!(s.freqs, [800, 900, 1000, 3700, 2900, 2600]);
}

#[test]
fn idle_player_asks_nothing() {
    let mut s = Sound::new();
    assert_eq!(s.poll(), ToneCmd::Idle);
    assert_eq!(s.poll(), ToneCmd::Idle);
    assert!(!s.active);
}

// Scenario: arm the shoot envelope (slots 3..=4) and poll it out: its two
// tones play in order, then the player deactivates and asks the tone
// generator to stop.
#[test]
fn shoot_envelope_plays_out_then_stops() {
    let mut s = Sound::new();
    s.trigger(3, 4);
    assert!(s.active);
    assert_eq!(s.poll(), ToneCmd::Play(3700));
    assert_eq!(s.poll(), ToneCmd::Play(2900));
    assert_eq!(s.poll(), ToneCmd::Stop);
    assert!(!s.active);
    assert_eq!(s.counter, 0);
    assert_eq!(s.poll(), ToneCmd::Idle);
}

// The destroy envelope covers slots 0..=2.
#[test]
fn destroy_envelope_plays_three_tones() {
    let mut s = Sound::new();
    s.trigger(0, 2);
    assert_eq!(s.poll(), ToneCmd::Play(800));
    assert_eq!(s.poll(), ToneCmd::Play(900));
    assert_eq!(s.poll(), ToneCmd::Play(1000));
    assert_eq!(s.poll(), ToneCmd::Stop);
    assert!(!s.active);
}

// Re-triggering while active overwrites in place; nothing queues.
#[test]
fn retrigger_overwrites_in_place() {
    let mut s = Sound::new();
    s.trigger(0, 2);
    assert_eq!(s.poll(), ToneCmd::Play(800));
    s.trigger(3, 4);
    assert_eq!(s.poll(), ToneCmd::Play(3700));
    assert_eq!(s.poll(), ToneCmd::Play(2900));
    assert_eq!(s.poll(), ToneCmd::Stop);
}
