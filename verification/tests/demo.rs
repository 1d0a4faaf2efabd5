use d_duel::demo::{choose_action, is_finished, setup_duel, step_towards, winner};
use d_duel::entity_manager::Position;
use d_duel::errors::GameError;
use d_duel::game_state::Action;

#[test]
fn setup_duel_places_two_entities() {
    let state = setup_duel(4524625);
    assert_eq!(state.entities.len(), 2);
    assert_eq!(state.entities[0].id, 1);
    assert_eq!(state.entities[0].stats.hp, 10);
    assert_eq!(state.entities[0].stats.ap, 100);
    assert_eq!(state.entities[0].position, Position::new(1, 1));
    assert_eq!(state.entities[1].id, 2);
    assert_eq!(state.entities[1].stats.hp, 100);
    assert_eq!(state.entities[1].position, Position::new(8, 1));
    assert_eq!(state.current_actor, 1);
}

#[test]
fn step_towards_moves_along_x_first() {
    let from = Position::new(1, 1);
    assert_eq!(step_towards(&from, &Position::new(8, 5)), Position::new(2, 1));
    assert_eq!(step_towards(&from, &Position::new(0, 5)), Position::new(0, 1));
    assert_eq!(step_towards(&from, &Position::new(1, 5)), Position::new(1, 2));
    assert_eq!(step_towards(&from, &Position::new(1, 0)), Position::new(1, 0));
    assert_eq!(step_towards(&from, &from), from);
}

#[test]
fn ai_moves_toward_a_distant_opponent() {
    let state = setup_duel(1);
    match choose_action(&state) {
        Ok(Action::Move { actor, position }) => {
            assert_eq!(actor, 1);
            assert_eq!(position, Position::new(2, 1));
        }
        _ => panic!("expected a move"),
    }
}

#[test]
fn ai_attacks_within_reach_and_waits_when_tired() {
    let mut state = setup_duel(1);
    state.entities[0].position = Position::new(7, 2);
    assert!(matches!(
        choose_action(&state),
        Ok(Action::Attack { actor: 1, target: 2 })
    ));
    state.entities[0].stats.ap = 3;
    assert!(matches!(choose_action(&state), Ok(Action::Wait { actor: 1 })));
}

#[test]
fn ai_needs_an_opponent() {
    let mut state = setup_duel(1);
    state.entities[1].is_dead = true;
    assert!(matches!(choose_action(&state), Err(GameError::EntityNotFound(1))));
    state.current_actor = 5;
    assert!(matches!(choose_action(&state), Err(GameError::EntityNotFound(5))));
}

#[test]
fn duel_ends_when_one_lives() {
    let mut state = setup_duel(1);
    assert!(!is_finished(&state));
    assert_eq!(winner(&state), Some(1));
    state.entities[0].is_dead = true;
    assert!(is_finished(&state));
    assert_eq!(winner(&state), Some(2));
    state.entities[1].is_dead = true;
    assert_eq!(winner(&state), None);
}
