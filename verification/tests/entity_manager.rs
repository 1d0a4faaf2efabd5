use d_duel::entity_manager::{Entity, Position, Stats};
use d_duel::game_state::Action;

#[test]
fn deduct_ap_should_return_zero_when_overflow() {
    let mut stats = Stats::new(1, 4);

    stats.deduct_ap(5);

    assert_eq!(stats.ap, 0);
}

#[test]
fn deduct_hp_should_return_zero_when_overflow() {
    let mut stats = Stats::new(4, 1);

    stats.deduct_hp(5);

    assert_eq!(stats.hp, 0);
}

#[test]
fn stats_new_sets_maximum_to_action_points() {
    let stats = Stats::new(12, 7);
    assert_eq!(stats.hp, 12);
    assert_eq!(stats.ap, 7);
    assert_eq!(stats.max_ap, 7);
}

#[test]
fn deduct_subtracts_exactly_when_enough() {
    let mut stats = Stats::new(9, 6);
    stats.deduct_ap(6);
    stats.deduct_hp(4);
    assert_eq!(stats.ap, 0);
    assert_eq!(stats.hp, 5);
    assert_eq!(stats.max_ap, 6);
}

#[test]
fn manhattan_distance_adds_both_axes() {
    let a = Position::new(1, 7);
    let b = Position::new(4, 2);
    assert_eq!(a.calculate_manhattan_distance(&b), 8);
    assert_eq!(b.calculate_manhattan_distance(&a), 8);
    assert_eq!(a.calculate_manhattan_distance(&a), 0);
}

#[test]
fn entity_new_is_alive_with_id_zero() {
    let e = Entity::new(10, 5, 2, 3);
    assert_eq!(e.id, 0);
    assert_eq!(e.stats.hp, 10);
    assert_eq!(e.stats.max_ap, 5);
    assert_eq!(e.position, Position::new(2, 3));
    assert!(!e.is_dead);
}

#[test]
fn action_cost_per_kind() {
    let e = Entity::new(10, 9, 1, 1);
    let mv = Action::Move { actor: 0, position: Position::new(4, 3) };
    let at = Action::Attack { actor: 0, target: 5 };
    let wt = Action::Wait { actor: 0 };
    assert_eq!(e.action_cost(&mv), 5);
    assert_eq!(e.action_cost(&at), 4);
    assert_eq!(e.action_cost(&wt), 9);
}

#[test]
fn set_id_changes_only_the_id() {
    let mut e = Entity::new(10, 9, 1, 1);
    e.set_id(42);
    assert_eq!(e.id, 42);
    assert_eq!(e.stats.hp, 10);
    assert_eq!(e.position, Position::new(1, 1));
}
