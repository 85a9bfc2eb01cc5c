use battleship::board::{Board, Ship};
use battleship::firing::in_key_order;
use battleship::grid::in_order;
use battleship::shape::ShipType;
use battleship::status::Status;
use std::collections::{BTreeMap, BTreeSet};

fn ship(id: &str, ship_type: ShipType) -> Ship {
    Ship { id: id.into(), rotation: 90, alive: true, ship_type }
}

/// Two upright ships: "a" on (0,1) (1,1) (2,1) and "b" on (5,6) (6,6) (7,6).
fn two_ships() -> Board {
    let mut board = Board::empty();
    assert!(board.place(ship("a", ShipType::I), (0, 0)));
    assert!(board.place(ship("b", ShipType::I), (5, 5)));
    board
}

fn volley(shots: &[(usize, usize)]) -> BTreeSet<(usize, usize)> {
    shots.iter().copied().collect()
}

fn alive(board: &Board) -> Vec<bool> {
    board.ships.iter().map(|s| s.alive).collect()
}

#[test]
fn a_shot_at_open_water_misses() {
    let mut board = two_ships();
    let (response, cleared) = board.take_fire(&volley(&[(9, 9)]));
    assert_eq!(response.len(), 1);
    assert_eq!(response[&(9, 9)], Status::Miss);
    assert!(!cleared);
    assert_eq!(board.positions[9][9].status, Status::Miss);
    assert_eq!(alive(&board), vec![true, true]);
}

#[test]
fn a_shot_at_a_ship_hits() {
    let mut board = two_ships();
    let (response, cleared) = board.take_fire(&volley(&[(1, 1)]));
    assert_eq!(response[&(1, 1)], Status::Hit);
    assert!(!cleared);
    assert_eq!(board.positions[1][1].status, Status::Hit);
    assert_eq!(board.positions[0][1].status, Status::Live);
    assert_eq!(board.positions[1][1].ship_id.as_deref(), Some("a"));
    assert_eq!(alive(&board), vec![true, true]);
}

#[test]
fn the_shot_at_the_last_live_cell_kills() {
    let mut board = two_ships();
    board.take_fire(&volley(&[(0, 1)]));
    board.take_fire(&volley(&[(2, 1)]));
    let (response, cleared) = board.take_fire(&volley(&[(1, 1)]));
    assert_eq!(response[&(1, 1)], Status::Kill);
    assert!(!cleared);
    assert_eq!(board.positions[1][1].status, Status::Kill);
    assert_eq!(board.positions[0][1].status, Status::Hit);
    assert_eq!(alive(&board), vec![false, true]);
}

#[test]
fn the_board_is_cleared_with_its_last_ship() {
    let mut board = two_ships();
    let (_, cleared) = board.take_fire(&volley(&[(0, 1), (1, 1), (2, 1)]));
    assert!(!cleared);
    let (_, cleared) = board.take_fire(&volley(&[(5, 6), (6, 6)]));
    assert!(!cleared);
    let (response, cleared) = board.take_fire(&volley(&[(7, 6)]));
    assert_eq!(response[&(7, 6)], Status::Kill);
    assert!(cleared);
    assert_eq!(alive(&board), vec![false, false]);
}

#[test]
fn in_one_volley_the_last_cell_in_row_major_order_is_the_kill() {
    let mut board = two_ships();
    let (response, cleared) = board.take_fire(&volley(&[(2, 1), (0, 1), (1, 1), (4, 4)]));
    assert_eq!(response.len(), 4);
    assert_eq!(response[&(0, 1)], Status::Hit);
    assert_eq!(response[&(1, 1)], Status::Hit);
    assert_eq!(response[&(2, 1)], Status::Kill);
    assert_eq!(response[&(4, 4)], Status::Miss);
    assert!(!cleared);
    assert_eq!(board.positions[2][1].status, Status::Kill);
    assert_eq!(alive(&board), vec![false, true]);
}

#[test]
fn a_volley_at_every_cell_clears_the_board() {
    let mut board = two_ships();
    let all: Vec<(usize, usize)> = (0..10).flat_map(|r| (0..10).map(move |c| (r, c))).collect();
    let (response, cleared) = board.take_fire(&volley(&all));
    assert!(cleared);
    assert_eq!(response.len(), 100);
    assert_eq!(response.values().filter(|s| **s == Status::Kill).count(), 2);
    assert_eq!(response.values().filter(|s| **s == Status::Hit).count(), 4);
    assert_eq!(response.values().filter(|s| **s == Status::Miss).count(), 94);
    assert_eq!(response[&(2, 1)], Status::Kill);
    assert_eq!(response[&(7, 6)], Status::Kill);
}

#[test]
fn an_empty_volley_changes_nothing() {
    let mut board = two_ships();
    let before = board.to_string();
    let (response, cleared) = board.take_fire(&BTreeSet::new());
    assert!(response.is_empty());
    assert!(!cleared);
    assert_eq!(board.to_string(), before);
    let mut empty = Board::empty();
    let (_, cleared) = empty.take_fire(&BTreeSet::new());
    // a board without ships has none afloat
    assert!(cleared);
}

#[test]
fn firing_again_at_a_hit_cell_is_a_miss_that_is_not_written() {
    let mut board = two_ships();
    board.take_fire(&volley(&[(1, 1)]));
    let before = board.to_string();
    let ships = alive(&board);
    let (response, cleared) = board.take_fire(&volley(&[(1, 1)]));
    assert_eq!(response[&(1, 1)], Status::Miss);
    assert!(!cleared);
    assert_eq!(board.positions[1][1].status, Status::Hit);
    assert_eq!(board.to_string(), before);
    assert_eq!(alive(&board), ships);
}

#[test]
fn firing_again_at_a_kill_changes_nothing() {
    let mut board = two_ships();
    board.take_fire(&volley(&[(0, 1), (1, 1), (2, 1)]));
    let before = board.to_string();
    let (response, cleared) = board.take_fire(&volley(&[(2, 1)]));
    assert_eq!(response[&(2, 1)], Status::Miss);
    assert!(!cleared);
    assert_eq!(board.positions[2][1].status, Status::Kill);
    assert_eq!(board.to_string(), before);
    assert_eq!(alive(&board), vec![false, true]);
}

#[test]
fn firing_again_at_a_miss_is_a_miss() {
    let mut board = two_ships();
    board.take_fire(&volley(&[(9, 0)]));
    let (response, _) = board.take_fire(&volley(&[(9, 0)]));
    assert_eq!(response[&(9, 0)], Status::Miss);
    assert_eq!(board.positions[9][0].status, Status::Miss);
}

#[test]
fn a_live_cell_without_a_ship_is_only_ever_hit() {
    let mut board = two_ships();
    board.positions[9][9].status = Status::Live;
    let (response, _) = board.take_fire(&volley(&[(9, 9)]));
    assert_eq!(response[&(9, 9)], Status::Hit);
    assert_eq!(alive(&board), vec![true, true]);
    // so is a cell whose ship is not on the roster
    board.positions[8][8].status = Status::Live;
    board.positions[8][8].ship_id = Some("ghost".into());
    let (response, _) = board.take_fire(&volley(&[(8, 8)]));
    assert_eq!(response[&(8, 8)], Status::Hit);
    assert_eq!(board.positions[8][8].status, Status::Hit);
}

#[test]
fn a_ship_is_looked_up_by_name() {
    let mut board = two_ships();
    assert_eq!(board.find_ship_index(&"a".to_string()), Some(0));
    assert_eq!(board.find_ship_index(&"b".to_string()), Some(1));
    assert_eq!(board.find_ship_index(&"c".to_string()), None);
    assert!(board.find_ship_mut("c".into()).is_none());
    let found = board.find_ship_mut("b".into()).unwrap();
    assert_eq!(found.id, "b");
    found.alive = false;
    assert_eq!(alive(&board), vec![true, false]);
    let afloat: Vec<&str> = board.ships_alive().iter().map(|s| s.id.as_str()).collect();
    assert_eq!(afloat, vec!["a"]);
}

#[test]
fn the_live_cells_of_a_ship_in_row_major_order() {
    let mut board = two_ships();
    let cells: Vec<(usize, usize)> =
        board.alive_pos_by_ship("a".into()).iter().map(|p| p.coordinate).collect();
    assert_eq!(cells, vec![(0, 1), (1, 1), (2, 1)]);
    board.take_fire(&volley(&[(1, 1)]));
    let cells: Vec<(usize, usize)> =
        board.alive_pos_by_ship("a".into()).iter().map(|p| p.coordinate).collect();
    assert_eq!(cells, vec![(0, 1), (2, 1)]);
    assert!(board.alive_pos_by_ship("nobody".into()).is_empty());
}

#[test]
fn a_volley_is_walked_in_row_major_order() {
    let shots = volley(&[(3, 0), (0, 9), (2, 5), (0, 1), (2, 4)]);
    assert_eq!(in_order(&shots), vec![(0, 1), (0, 9), (2, 4), (2, 5), (3, 0)]);
    assert!(in_order(&BTreeSet::new()).is_empty());
}

#[test]
fn the_outcomes_of_a_volley_as_a_list() {
    let mut response = BTreeMap::new();
    response.insert((3, 3), Status::Hit);
    response.insert((0, 2), Status::Kill);
    assert_eq!(in_key_order(&response), vec![((0, 2), Status::Kill), ((3, 3), Status::Hit)]);
}

#[test]
fn outcomes_are_recorded_on_the_tracking_board() {
    let mut board = Board::empty();
    let mut response = BTreeMap::new();
    response.insert((1, 1), Status::Miss);
    response.insert((3, 3), Status::Hit);
    response.insert((0, 2), Status::Kill);
    let message = board.update_status(response, true);
    assert_eq!(message, "Computer have sunk 1 ship. Computer missed 1.");
    assert_eq!(board.positions[1][1].status, Status::Miss);
    assert_eq!(board.positions[3][3].status, Status::Hit);
    assert_eq!(board.positions[0][2].status, Status::Kill);
    assert_eq!(board.positions[0][0].status, Status::Space);
    assert!(board.ships.is_empty());
}

#[test]
fn recorded_hits_and_kills_are_not_overwritten() {
    let mut board = Board::empty();
    let mut first = BTreeMap::new();
    first.insert((3, 3), Status::Hit);
    first.insert((0, 2), Status::Kill);
    first.insert((5, 5), Status::Miss);
    board.update_status(first, false);
    let mut second = BTreeMap::new();
    second.insert((3, 3), Status::Miss);
    second.insert((0, 2), Status::Miss);
    second.insert((5, 5), Status::Hit);
    let message = board.update_status(second, false);
    assert_eq!(message, "You have 1 hit. You missed 2.");
    assert_eq!(board.positions[3][3].status, Status::Hit);
    assert_eq!(board.positions[0][2].status, Status::Kill);
    assert_eq!(board.positions[5][5].status, Status::Hit);
}

#[test]
fn an_empty_response_reports_no_hit() {
    let mut board = Board::empty();
    assert_eq!(board.update_status(BTreeMap::new(), false), "You have 0 hit.");
    assert_eq!(board, Board::empty());
}

#[test]
fn a_volley_and_its_record_agree() {
    let mut home = two_ships();
    let mut tracking = Board::empty();
    let (response, _) = home.take_fire(&volley(&[(0, 1), (1, 1), (2, 1), (5, 6), (0, 0)]));
    let message = tracking.update_status(response, false);
    assert_eq!(message, "You have sunk 1 ship. You missed 1.");
    for r in 0..10 {
        for c in 0..10 {
            let seen = tracking.positions[r][c].status;
            let real = home.positions[r][c].status;
            if seen != Status::Space {
                assert_eq!(seen, real);
            }
        }
    }
}
