use d_duel::entity_manager::{Entity, Position};
use d_duel::errors::GameError;
use d_duel::game_state::{Action, GameState};

fn duel(seed: u64) -> GameState {
    let mut state = GameState::new(seed);
    let mut a = Entity::new(10, 20, 2, 2);
    a.set_id(1);
    let mut b = Entity::new(10, 10, 3, 3);
    b.set_id(2);
    state.entities.push(a);
    state.entities.push(b);
    state
}

#[test]
fn rng_produces_same_sequence_when_seed_is_same() {
    let mut left = GameState::new(123);
    let mut right = GameState::new(123);

    let all: bool = (0..20).all(|_| left.rng.roll() == right.rng.roll());
    assert!(all);
}

#[test]
fn rng_produces_different_sequence_when_seeds_are_different() {
    let mut left = GameState::new(123);
    let mut right = GameState::new(321);

    let all: bool = (0..20).all(|_| left.rng.roll() == right.rng.roll());
    assert!(!all);
}

#[test]
fn new_state_starts_with_actor_one_and_no_entities() {
    let state = GameState::new(5);
    assert_eq!(state.current_actor, 1);
    assert!(state.entities.is_empty());
    assert_eq!(state.tick, 0);
}

#[test]
fn step_refuses_other_actor() {
    let mut state = duel(1);
    let r = state.step(Action::Wait { actor: 2 });
    assert!(matches!(r, Err(GameError::NotYourTurn)));
    assert_eq!(state.tick, 0);
    assert_eq!(state.entities[1].stats.ap, 10);
}

#[test]
fn step_refuses_missing_actor() {
    let mut state = duel(1);
    state.current_actor = 9;
    let r = state.step(Action::Wait { actor: 9 });
    assert!(matches!(r, Err(GameError::EntityNotFound(9))));
}

#[test]
fn step_refuses_dead_actor() {
    let mut state = duel(1);
    state.entities[0].is_dead = true;
    let r = state.step(Action::Wait { actor: 1 });
    assert!(matches!(r, Err(GameError::ActorDead(1))));
}

#[test]
fn step_refuses_move_beyond_action_points() {
    let mut state = duel(1);
    state.entities[0].stats.ap = 2;
    let r = state.step(Action::Move { actor: 1, position: Position::new(5, 2) });
    assert!(matches!(
        r,
        Err(GameError::NotEnoughActionPoints { current: 2, required: 3 })
    ));
    assert_eq!(state.entities[0].position, Position::new(2, 2));
}

#[test]
fn step_refuses_move_off_the_board() {
    let mut state = duel(1);
    let r = state.step(Action::Move { actor: 1, position: Position::new(8, 2) });
    assert!(matches!(r, Err(GameError::OutOfBounds)));
}

#[test]
fn step_refuses_move_into_a_wall() {
    let mut state = duel(1);
    let r = state.step(Action::Move { actor: 1, position: Position::new(0, 2) });
    assert!(matches!(r, Err(GameError::NotWalkableTile)));
    assert_eq!(state.entities[0].stats.ap, 20);
}

#[test]
fn step_refuses_attack_on_missing_target() {
    let mut state = duel(1);
    let r = state.step(Action::Attack { actor: 1, target: 7 });
    assert!(matches!(r, Err(GameError::EntityNotFound(7))));
}

#[test]
fn step_refuses_attack_out_of_range() {
    let mut state = duel(1);
    state.entities[1].position = Position::new(5, 2);
    let r = state.step(Action::Attack { actor: 1, target: 2 });
    assert!(matches!(r, Err(GameError::TargetNotInRange)));
    assert_eq!(state.entities[1].stats.hp, 10);
}

#[test]
fn step_move_pays_distance_and_moves() {
    let mut state = duel(1);
    let r = state.step(Action::Move { actor: 1, position: Position::new(4, 5) });
    assert!(r.is_ok());
    assert_eq!(state.entities[0].position, Position::new(4, 5));
    assert_eq!(state.entities[0].stats.ap, 15);
    assert_eq!(state.tick, 1);
}

#[test]
fn step_attack_pays_four_and_deals_two() {
    let mut state = duel(1);
    let r = state.step(Action::Attack { actor: 1, target: 2 });
    assert!(r.is_ok());
    assert_eq!(state.entities[0].stats.ap, 16);
    assert_eq!(state.entities[1].stats.hp, 8);
    assert_eq!(state.entities[1].stats.ap, 10);
    assert_eq!(state.tick, 1);
}

#[test]
fn step_wait_spends_all_points() {
    let mut state = duel(1);
    assert!(state.step(Action::Wait { actor: 1 }).is_ok());
    assert_eq!(state.entities[0].stats.ap, 0);
    assert_eq!(state.tick, 1);
    assert!(state.step(Action::Wait { actor: 1 }).is_ok());
    assert_eq!(state.tick, 2);
}

#[test]
fn step_is_deterministic_for_equal_states() {
    let mut a = duel(77);
    let mut b = duel(77);
    assert_eq!(a.hash(), b.hash());
    for _ in 0..3 {
        let ra = a.step(Action::Attack { actor: 1, target: 2 }).is_ok();
        let rb = b.step(Action::Attack { actor: 1, target: 2 }).is_ok();
        assert_eq!(ra, rb);
        assert_eq!(a.hash(), b.hash());
    }
    assert_eq!(a.entities[1].stats.hp, 4);
}

#[test]
fn hash_changes_when_entities_change() {
    let mut a = duel(77);
    let b = duel(77);
    a.step(Action::Wait { actor: 1 }).unwrap();
    assert_ne!(a.hash(), b.hash());
}

#[test]
fn validate_gives_the_answer_of_step_without_change() {
    let state = duel(1);
    assert!(matches!(
        state.validate(&Action::Move { actor: 1, position: Position::new(0, 2) }),
        Err(GameError::NotWalkableTile)
    ));
    assert!(state.validate(&Action::Wait { actor: 1 }).is_ok());
    assert_eq!(state.entities[0].stats.ap, 20);
    assert_eq!(state.tick, 0);
}
