use arcade_core::seed_rand::Xorshift128pState;

// Same seed, same stream: the first twenty post-warm-up draws match the
// recorded golden vector bit for bit.
#[test]
fn same_seed_gives_golden_vector() {
    let golden: [u64; 20] = [
        6793396365120960587u64,
        7342926850276438745u64,
        557577207633561488u64,
        2911220273205884794u64,
        7690883186709991219u64,
        15801102969296752003u64,
        3899805548888080130u64,
        2536060015055146418u64,
        3677681359401025392u64,
        11648814744274690165u64,
        6009767653896748909u64,
        15808283668060796602u64,
        6012929387672230940u64,
        1751893881480780064u64,
        9129867813447789701u64,
        4640564505119311286u64,
        969481321422540465u64,
        7471567118504270118u64,
        7680371592165074722u64,
        7280867159932892151u64,
    ];
    let mut r = Xorshift128pState::new(12345);
    for expected in golden {
        assert_eq!(r.gen(), expected);
    }
}

// Two generators from one seed never diverge.
#[test]
fn same_seed_twin_streams_agree() {
    let mut a = Xorshift128pState::new(52);
    let mut b = Xorshift128pState::new(52);
    for _ in 0..50 {
        assert_eq!(a.gen(), b.gen());
    }
}

// Different seeds give different streams (a sanity check, not a law).
#[test]
fn different_seeds_differ() {
    let mut a = Xorshift128pState::new(1);
    let mut b = Xorshift128pState::new(2);
    let va: Vec<u64> = (0..5).map(|_| a.gen()).collect();
    let vb: Vec<u64> = (0..5).map(|_| b.gen()).collect();
    assert_ne!(va, vb);
}

// range draws stay inside [min, max) across many draws and several spans.
#[test]
fn gen_min_max_stays_in_range() {
    let mut r = Xorshift128pState::new(777);
    for _ in 0..200 {
        let v = r.gen_min_max(5, 55);
        assert!(v >= 5 && v < 55);
    }
    let mut r = Xorshift128pState::new(40000);
    for _ in 0..200 {
        let v = r.gen_min_max(0, 1000);
        assert!(v < 1000);
        let w = r.gen_min_max(3400, 3700);
        assert!(w >= 3400 && w < 3700);
    }
}
