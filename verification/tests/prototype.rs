use d_duel::{Action, GameError, GameState};

fn get_game_state_with_entities(seed: u64) -> GameState {
    let mut game_state = GameState::new(seed);

    game_state.apply(Action::Spawn).unwrap();
    game_state.apply(Action::Spawn).unwrap();

    game_state
}

#[test]
fn generate_random_number_when_seed_is_fixed_should_return_same_number() {
    let mut left = GameState::new(123);
    let mut right = GameState::new(123);

    let all: bool = (0..20).all(|_| left.rng.roll() == right.rng.roll());
    assert!(all);
}

#[test]
fn generate_random_number_when_seed_is_different_should_not_return_same_number() {
    let mut left = GameState::new(123);
    let mut right = GameState::new(321);

    let all: bool = (0..20).all(|_| left.rng.roll() == right.rng.roll());
    assert!(!all);
}

#[test]
fn spawn_when_adding_entity_should_increase_next_id_by_one() {
    let mut state = GameState::new(123);
    let before = state.next_entity_id;
    state.apply(Action::Spawn).unwrap();

    assert_eq!(state.next_entity_id, before + 1);
}

#[test]
fn apply_when_current_end_turn_should_swap_next_entity() {
    let mut state = get_game_state_with_entities(123);
    let before = state.current_turn_index;
    state.apply(Action::EndTurn).unwrap();

    let after = state.current_turn_index;
    assert_ne!(before, after);
}

#[test]
fn end_turn_when_no_entities_should_return_error() {
    let mut state = GameState::new(123);

    let result = state.apply(Action::EndTurn);

    assert!(result.is_err());
}

#[test]
fn attack_when_target_invalid_should_return_error() {
    let mut state = get_game_state_with_entities(123);

    let result = state.apply(Action::Attack {
        attacker: 1,
        target: 123,
    });

    assert!(result.is_err());
}

#[test]
fn hash_when_current_state_same_should_be_equal() {
    let mut a = get_game_state_with_entities(123);
    let mut b = get_game_state_with_entities(123);

    a.apply(Action::EndTurn).unwrap();
    b.apply(Action::EndTurn).unwrap();

    assert_eq!(a.hash(), b.hash());
}

#[test]
fn hash_when_current_state_not_same_should_not_be_equal() {
    let mut a = get_game_state_with_entities(123);
    let mut b = get_game_state_with_entities(123);

    a.apply(Action::EndTurn).unwrap();
    b.apply(Action::Attack {
        attacker: 1,
        target: 2,
    })
    .unwrap();

    assert_ne!(a.hash(), b.hash());
}

#[test]
fn end_turn_wraps_round_to_the_first_entity() {
    let mut state = get_game_state_with_entities(1);
    state.apply(Action::EndTurn).unwrap();
    assert_eq!(state.current_turn_index, 1);
    state.apply(Action::EndTurn).unwrap();
    assert_eq!(state.current_turn_index, 0);
}

#[test]
fn end_turn_error_is_no_entities() {
    let mut state = GameState::new(1);
    assert!(matches!(state.apply(Action::EndTurn), Err(GameError::NoEntities)));
    assert_eq!(state.current_turn_index, 0);
}

#[test]
fn spawn_gives_consecutive_ids() {
    let mut state = GameState::new(1);
    assert_eq!(state.next_entity_id, 1);
    state.apply(Action::Spawn).unwrap();
    state.apply(Action::Spawn).unwrap();
    state.apply(Action::Spawn).unwrap();
    assert_eq!(state.next_entity_id, 4);
    assert_eq!(state.entities.len(), 3);
}

#[test]
fn attack_with_missing_attacker_still_hits_target() {
    let mut hit_only = get_game_state_with_entities(1);
    let r = hit_only.apply(Action::Attack { attacker: 9, target: 2 });
    assert!(matches!(r, Err(GameError::EntityNotFound)));
    let untouched = get_game_state_with_entities(1);
    assert_ne!(hit_only.hash(), untouched.hash());
}

#[test]
fn attack_with_missing_target_changes_nothing() {
    let mut state = get_game_state_with_entities(1);
    let before = state.hash();
    let r = state.apply(Action::Attack { attacker: 1, target: 9 });
    assert!(matches!(r, Err(GameError::EntityNotFound)));
    assert_eq!(state.hash(), before);
}

#[test]
fn rolls_differ_along_the_stream() {
    let mut state = GameState::new(7);
    let first = state.rng.roll();
    let second = state.rng.roll();
    assert_ne!(first, second);
}

#[test]
fn attack_on_missing_target_by_tired_attacker_is_refused() {
    let mut state = get_game_state_with_entities(1);
    for _ in 0..5 {
        state.apply(Action::Attack { attacker: 1, target: 2 }).unwrap();
    }
    let before = state.hash();
    let r = state.apply(Action::Attack { attacker: 1, target: 9 });
    assert!(matches!(r, Err(GameError::EntityNotFound)));
    assert_eq!(state.hash(), before);
}

#[test]
fn reachable_states_keep_ids_in_order_and_index_in_range() {
    let mut state = GameState::new(1);
    for _ in 0..4 {
        state.apply(Action::Spawn).unwrap();
        state.apply(Action::EndTurn).unwrap();
        assert!(state.current_turn_index < state.entities.len());
        assert_eq!(state.next_entity_id as usize, state.entities.len() + 1);
    }
    assert_eq!(state.current_turn_index, 3);
    state.apply(Action::EndTurn).unwrap();
    assert_eq!(state.current_turn_index, 0);
}
