use sim_core::rng::{DeterministicRng, NormalDraw};

#[test]
fn seed_is_mixed_into_state() {
    assert_eq!(DeterministicRng::new(42).state, 11400714819323198527);
    assert_eq!(DeterministicRng::new(0).state, 11400714819323198485);
    assert_eq!(DeterministicRng::new(u64::MAX).state, 11400714819323198484);
    assert!(DeterministicRng::new(42).cached_normal.is_none());
}

#[test]
fn raw_draws_follow_the_congruential_step() {
    let mut rng = DeterministicRng::new(42);
    assert_eq!(rng.next_u64(), 12275965480561121634);
    assert_eq!(rng.next_u64(), 14569003925449282953);
    assert_eq!(rng.state, 14569003925449282953);
}

#[test]
fn uniform_index_is_high_53_bits() {
    let mut rng = DeterministicRng::new(42);
    assert_eq!(rng.next_open01_index(), 5994123769805235);
    assert_eq!(rng.next_open01_index(), 7113771447973282);
}

#[test]
fn fresh_normal_consumes_two_draws_then_cache_is_used() {
    let mut rng = DeterministicRng::new(42);
    let first = rng.begin_normal();
    assert_eq!(first, NormalDraw::Fresh(5994123769805235, 7113771447973282));
    assert_eq!(rng.state, 14569003925449282953);
    let z1 = (-0.25f64).to_bits();
    rng.keep_normal(z1);
    let second = rng.begin_normal();
    assert_eq!(second, NormalDraw::Cached(z1));
    assert_eq!(rng.state, 14569003925449282953);
    assert!(rng.cached_normal.is_none());
}

#[test]
fn same_seed_gives_same_stream() {
    let mut a = DeterministicRng::new(7);
    let mut b = DeterministicRng::new(7);
    for _ in 0..100 {
        assert_eq!(a.begin_normal(), b.begin_normal());
        assert_eq!(a.next_u64(), b.next_u64());
    }
    let mut c = DeterministicRng::new(8);
    assert_ne!(DeterministicRng::new(7).next_u64(), c.next_u64());
}
