use battleship::board::{Board, Ship};
use battleship::rules::{allows_shot, shot_quota};
use battleship::shape::ShipType;
use battleship::status::Rule;

fn fleet(alive: &[bool]) -> Board {
    let mut board = Board::empty();
    for (i, afloat) in alive.iter().enumerate() {
        board.ships.push(Ship {
            id: format!("ship-{}", i),
            rotation: 90,
            alive: *afloat,
            ship_type: ShipType::I,
        });
    }
    board
}

#[test]
fn the_default_rule_allows_one_shot() {
    let home = fleet(&[true, true, true, true]);
    let tracking = Board::empty();
    assert_eq!(shot_quota(Rule::Default, &home, &tracking), 1);
    assert!(allows_shot(Rule::Default, &home, &tracking, 0));
    assert!(!allows_shot(Rule::Default, &home, &tracking, 1));
    assert!(!allows_shot(Rule::Default, &home, &tracking, 2));
}

#[test]
fn supercharge_allows_a_shot_for_each_ship_afloat() {
    let tracking = Board::empty();
    let home = fleet(&[true, true, true, true]);
    assert_eq!(shot_quota(Rule::SuperCharge, &home, &tracking), 4);
    assert!(allows_shot(Rule::SuperCharge, &home, &tracking, 3));
    assert!(!allows_shot(Rule::SuperCharge, &home, &tracking, 4));
    let home = fleet(&[true, false, true, false]);
    assert_eq!(shot_quota(Rule::SuperCharge, &home, &tracking), 2);
    assert!(allows_shot(Rule::SuperCharge, &home, &tracking, 1));
    assert!(!allows_shot(Rule::SuperCharge, &home, &tracking, 2));
    let home = fleet(&[false, false]);
    assert_eq!(shot_quota(Rule::SuperCharge, &home, &tracking), 0);
    assert!(!allows_shot(Rule::SuperCharge, &home, &tracking, 0));
}

#[test]
fn desperation_allows_one_shot_and_one_more_for_each_ship_on_record_as_sunk() {
    let home = fleet(&[true, true, true, true]);
    let tracking = Board::empty();
    assert_eq!(shot_quota(Rule::Desperation, &home, &tracking), 1);
    assert!(allows_shot(Rule::Desperation, &home, &tracking, 0));
    assert!(!allows_shot(Rule::Desperation, &home, &tracking, 1));
    let tracking = fleet(&[false, true, false]);
    assert_eq!(shot_quota(Rule::Desperation, &home, &tracking), 3);
    assert!(allows_shot(Rule::Desperation, &home, &tracking, 2));
    assert!(!allows_shot(Rule::Desperation, &home, &tracking, 3));
}
