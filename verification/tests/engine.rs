use d_duel::engine::errors::GameError;
use d_duel::engine::rng::DeterministicRng;
use d_duel::entity_manager::Position;

#[test]
fn engine_rng_same_seed_same_rolls() {
    let mut a = DeterministicRng::new(99);
    let mut b = DeterministicRng::new(99);
    for _ in 0..300 {
        assert_eq!(a.roll(), b.roll());
    }
}

#[test]
fn engine_rng_matches_older_rng_stream() {
    let mut a = DeterministicRng::new(5);
    let mut b = d_duel::rng::DeterministicRng::new(5);
    for _ in 0..10 {
        assert_eq!(a.roll(), b.roll());
    }
}

#[test]
fn engine_error_names_the_tile() {
    let e = GameError::OutOfBounds(Position::new(9, 9));
    assert!(matches!(e, GameError::OutOfBounds(Position { x: 9, y: 9 })));
}

#[test]
fn cloned_rng_continues_the_same_stream() {
    let mut a = d_duel::rng::DeterministicRng::new(3);
    a.roll();
    let mut b = a.clone();
    assert_eq!(a.roll(), b.roll());
}
