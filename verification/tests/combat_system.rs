use d_duel::combat_system::attack;
use d_duel::entity_manager::Entity;
use d_duel::errors::GameError;

#[test]
fn attack_when_not_enough_ap_should_return_error() {
    let mut attacker = Entity::new(10, 2, 0, 0);
    let mut target = Entity::new(10, 10, 0, 0);

    let result = attack(&mut attacker, &mut target);

    assert!(result.is_err())
}

#[test]
fn attack_when_not_in_range_should_return_error() {
    let mut attacker = Entity::new(10, 4, 0, 0);
    let mut target = Entity::new(10, 10, 10, 10);

    let result = attack(&mut attacker, &mut target);

    assert!(result.is_err())
}

#[test]
fn attack_when_enough_ap_should_return_success() {
    let mut attacker = Entity::new(10, 4, 1, 1);
    let mut target = Entity::new(10, 10, 0, 0);

    let result = attack(&mut attacker, &mut target);

    assert!(result.is_ok())
}

#[test]
fn attack_short_of_points_names_current_and_required() {
    let mut attacker = Entity::new(10, 3, 0, 0);
    let mut target = Entity::new(10, 10, 0, 0);
    let result = attack(&mut attacker, &mut target);
    assert!(matches!(
        result,
        Err(GameError::NotEnoughActionPoints { current: 3, required: 4 })
    ));
    assert_eq!(attacker.stats.ap, 3);
    assert_eq!(target.stats.hp, 10);
}

#[test]
fn attack_out_of_range_changes_nothing() {
    let mut attacker = Entity::new(10, 9, 0, 0);
    let mut target = Entity::new(10, 10, 2, 1);
    let result = attack(&mut attacker, &mut target);
    assert!(matches!(result, Err(GameError::TargetNotInRange)));
    assert_eq!(attacker.stats.ap, 9);
    assert_eq!(target.stats.hp, 10);
}

#[test]
fn attack_pays_four_points_and_deals_two_damage() {
    let mut attacker = Entity::new(10, 9, 3, 3);
    let mut target = Entity::new(7, 10, 4, 4);
    assert!(attack(&mut attacker, &mut target).is_ok());
    assert_eq!(attacker.stats.ap, 5);
    assert_eq!(attacker.stats.hp, 10);
    assert_eq!(target.stats.hp, 5);
    assert_eq!(target.stats.ap, 10);
}

#[test]
fn attack_cannot_take_hit_points_below_zero() {
    let mut attacker = Entity::new(10, 4, 0, 0);
    let mut target = Entity::new(1, 10, 0, 2);
    assert!(attack(&mut attacker, &mut target).is_ok());
    assert_eq!(target.stats.hp, 0);
    assert_eq!(attacker.stats.ap, 0);
}
