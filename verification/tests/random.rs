use raymath::random::Random;

#[test]
fn same_seed_gives_same_stream() {
    let mut a = Random::new(42);
    let mut b = Random::new(42);
    for _ in 0..32 {
        assert_eq!(a.next_u64(), b.next_u64());
    }
}

#[test]
fn different_seeds_diverge() {
    let mut a = Random::new(1);
    let mut b = Random::new(2);
    let mut all_equal = true;
    for _ in 0..8 {
        if a.next_u64() != b.next_u64() {
            all_equal = false;
        }
    }
    assert!(!all_equal);
}

#[test]
fn components_stay_in_range() {
    let mut rng = Random::new(26754825);
    for _ in 0..1000 {
        let c = rng.next_component();
        assert!(-524288 <= c && c <= 524288);
    }
}

#[test]
fn component_stream_is_reproducible() {
    let mut a = Random::new(26754825);
    let first: Vec<i64> = (0..6).map(|_| a.next_component()).collect();
    let mut b = Random::new(26754825);
    let second: Vec<i64> = (0..6).map(|_| b.next_component()).collect();
    assert_eq!(first, second);
}

#[test]
fn stream_changes_state_each_draw() {
    let mut rng = Random::new(7);
    let x = rng.next_u64();
    let y = rng.next_u64();
    assert_ne!(x, y);
}
