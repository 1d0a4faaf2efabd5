use d_duel::entity_manager::Position;
use d_duel::map::{in_bounds, is_walkable, MAP};

#[test]
fn in_bounds_covers_the_eight_by_eight_board() {
    assert!(in_bounds(&MAP, &Position::new(0, 0)));
    assert!(in_bounds(&MAP, &Position::new(7, 7)));
    assert!(!in_bounds(&MAP, &Position::new(8, 0)));
    assert!(!in_bounds(&MAP, &Position::new(0, 8)));
}

#[test]
fn walls_are_not_walkable_floor_is() {
    assert!(!is_walkable(&MAP, &Position::new(0, 3)));
    assert!(!is_walkable(&MAP, &Position::new(7, 7)));
    assert!(is_walkable(&MAP, &Position::new(1, 1)));
    assert!(is_walkable(&MAP, &Position::new(6, 6)));
}
