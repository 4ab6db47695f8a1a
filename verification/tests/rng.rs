//! Deterministic random number generator tests.

use rts_sim::rng::SimRng;

#[test]
fn test_determinism() {
    let mut rng1 = SimRng::new(42);
    let mut rng2 = SimRng::new(42);

    for _ in 0..1000 {
        assert_eq!(rng1.next_u64(), rng2.next_u64());
    }
}

#[test]
fn test_different_seeds() {
    let mut rng1 = SimRng::new(42);
    let mut rng2 = SimRng::new(43);

    // Very unlikely to be equal with different seeds
    let seq1: Vec<u64> = (0..10).map(|_| rng1.next_u64()).collect();
    let seq2: Vec<u64> = (0..10).map(|_| rng2.next_u64()).collect();

    assert_ne!(seq1, seq2);
}

#[test]
fn test_reset() {
    let mut rng = SimRng::new(42);

    let first_run: Vec<u64> = (0..10).map(|_| rng.next_u64()).collect();

    rng.reset();

    let second_run: Vec<u64> = (0..10).map(|_| rng.next_u64()).collect();

    assert_eq!(first_run, second_run);
}

#[test]
fn test_set_seed_restarts_sequence() {
    let mut rng = SimRng::new(7);
    let _ = rng.next_u64();
    rng.set_seed(42);

    let mut fresh = SimRng::new(42);
    for _ in 0..50 {
        assert_eq!(rng.next_u64(), fresh.next_u64());
    }
    assert_eq!(rng.seed(), 42);
    assert_eq!(rng.current_seed(), 42);
}
