use bench_kernels::generator::{INCREMENT, LCG, MULTIPLIER, UNIT_DENOMINATOR};

#[test]
fn first_integer_draws_from_seed_42() {
    let mut rng = LCG::new(42);
    assert_eq!(rng.next_int(), 1083814273);
    assert_eq!(rng.next_int(), 378494188);
    assert_eq!(rng.next_int(), 2479403867);
    assert_eq!(rng.next_int(), 955863294);
}

#[test]
fn first_unit_draws_from_seed_42_as_floats() {
    let mut rng = LCG::new(42);
    let expected: [f64; 3] = [0.2523451747838408, 0.08812504541128874, 0.5772811982315034];
    for want in expected {
        let numerator = rng.float64();
        let value = numerator as f64 / UNIT_DENOMINATOR as f64;
        assert_eq!(value.to_bits(), want.to_bits());
        assert!(value >= 0.0 && value < 1.0);
    }
}

#[test]
fn unit_and_integer_draws_share_one_stream() {
    let mut floats = LCG::new(42);
    let mut ints = LCG::new(42);
    for _ in 0..1000 {
        assert_eq!(floats.float64(), ints.next_int());
    }
    let mut mixed = LCG::new(42);
    assert_eq!(mixed.float64(), 1083814273);
    assert_eq!(mixed.next_int(), 378494188);
    assert_eq!(mixed.float64(), 2479403867);
}

#[test]
fn step_wraps_around_at_32_bits() {
    let mut zero = LCG::new(0);
    assert_eq!(zero.next_int(), 1013904223);
    assert_eq!(zero.next_int(), 1196435762);
    let mut top = LCG::new(u32::MAX);
    assert_eq!(top.next_int(), 1012239698);
    assert_eq!(top.next_int(), 806866057);
}

#[test]
fn step_is_the_congruence() {
    assert_eq!(MULTIPLIER, 1664525);
    assert_eq!(INCREMENT, 1013904223);
    assert_eq!(UNIT_DENOMINATOR, 1u64 << 32);
    let mut rng = LCG::new(987654321);
    let mut state: u64 = 987654321;
    for _ in 0..10000 {
        state = (state * 1664525 + 1013904223) % (1u64 << 32);
        assert_eq!(rng.next_int() as u64, state);
    }
}

#[test]
fn equal_seeds_give_equal_streams() {
    let mut first = LCG::new(12345);
    let mut second = LCG::new(12345);
    for _ in 0..500 {
        assert_eq!(first.next_int(), second.next_int());
    }
}
