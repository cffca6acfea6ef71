use engine::rand::{Wyhash64, STATE_STEP};

#[test]
fn numbers_of_seed_zero() {
    let mut rng = Wyhash64::from_seed(0);
    assert_eq!(rng.gen(), 0x5c71_580f_e121_4a64);
    assert_eq!(rng.gen(), 0xb8e2_b01f_c242_94c8);
    assert_eq!(rng.gen(), 0x94a4_a556_cbbc_9f73);
    assert_eq!(STATE_STEP, 0x60be_e2be_e120_fc15);
}

#[test]
fn numbers_of_the_test_scene_seed() {
    let mut rng = Wyhash64::from_seed(0xcafe_babe);
    assert_eq!(rng.gen(), 10973131869117751119);
    assert_eq!(rng.gen(), 13131560680587848052);
    assert_eq!(rng.gen(), 4014700295041894616);
    assert_eq!(rng.gen(), 5580252817729503894);
}

#[test]
fn state_wraps_around() {
    let mut a = Wyhash64::from_seed(u64::MAX);
    let mut b = Wyhash64::from_seed(0x60be_e2be_e120_fc14);
    a.gen();
    assert_eq!(a.gen(), {
        b.gen()
    });
}

#[test]
fn number_in_range() {
    let mut rng = Wyhash64::from_seed(42);
    assert_eq!(rng.gen_in_range(10..100), 36);
    let mut rng = Wyhash64::from_seed(0xcafe_babe);
    assert_eq!(rng.gen_in_range(3..25), 20);
    assert_eq!(rng.gen_in_range(0..32), 20);
    assert_eq!(rng.gen_in_range(0..32), 24);
    assert_eq!(rng.gen_in_range(0..32), 22);
}

#[test]
fn range_of_one_number() {
    let mut rng = Wyhash64::from_seed(1);
    for _ in 0..10 {
        assert_eq!(rng.gen_in_range(7..8), 7);
    }
    assert_eq!(rng.gen_in_range(u64::MAX - 1..u64::MAX), u64::MAX - 1);
}

#[test]
fn numbers_stay_in_range() {
    let mut rng = Wyhash64::new();
    for _ in 0..1000 {
        let n = rng.gen_in_range(5..9);
        assert!((5..9).contains(&n));
    }
}

#[test]
fn clock_seed_is_a_fraction_of_a_second() {
    for _ in 0..100 {
        assert!(Wyhash64::new().peek() < 1_000_000_000);
    }
}

#[test]
fn state_moves_by_one_step_per_number() {
    let mut rng = Wyhash64::from_seed(5);
    assert_eq!(rng.peek(), 5);
    rng.gen();
    assert_eq!(rng.peek(), 5 + STATE_STEP);
    rng.gen_in_range(0..10);
    assert_eq!(rng.peek(), 5u64.wrapping_add(STATE_STEP).wrapping_add(STATE_STEP));
}
