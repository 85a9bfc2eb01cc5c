use battleship::board::{Board, Position, SetupError, Ship, MAX_PLACEMENT_ATTEMPTS};
use battleship::grid::{is_in_grid, COLUMNS, ROWS};
use battleship::random::{entropy_seed, get_random_coordinate, RandomSource};
use battleship::shape::ShipType;
use battleship::status::Status;

fn cells_named(board: &Board, id: &str) -> Vec<(usize, usize)> {
    board
        .positions
        .iter()
        .flat_map(|row| row.iter())
        .filter(|p| p.ship_id.as_deref() == Some(id))
        .map(|p| p.coordinate)
        .collect()
}

fn ship(id: &str, ship_type: ShipType, rotation: u16) -> Ship {
    Ship { id: id.into(), rotation, alive: true, ship_type }
}

#[test]
fn a_fresh_tracking_board_is_open_water() {
    let mut rng = RandomSource::from_seed(11);
    let board = Board::new(false, &mut rng).unwrap();
    assert!(board.ships.is_empty());
    assert_eq!(board.positions.len(), ROWS);
    for (r, row) in board.positions.iter().enumerate() {
        assert_eq!(row.len(), COLUMNS);
        for (c, cell) in row.iter().enumerate() {
            assert_eq!(cell.status, Status::Space);
            assert_eq!(cell.coordinate, (r, c));
            assert_eq!(cell.ship_id, None);
        }
    }
}

#[test]
fn a_fresh_home_board_holds_live_cells_and_open_water() {
    for seed in 0..20u64 {
        let mut rng = RandomSource::from_seed(seed);
        let board = Board::new(true, &mut rng).unwrap();
        for row in &board.positions {
            for cell in row {
                match &cell.ship_id {
                    Some(id) => {
                        assert_eq!(cell.status, Status::Live);
                        assert!(board.ships.iter().any(|s| &s.id == id));
                    }
                    None => assert_eq!(cell.status, Status::Space),
                }
            }
        }
    }
}

#[test]
fn every_ship_of_a_fleet_lies_whole_on_the_board() {
    for seed in 0..20u64 {
        let mut rng = RandomSource::from_seed(seed);
        let board = Board::new(true, &mut rng).unwrap();
        let types: Vec<ShipType> = board.ships.iter().map(|s| s.ship_type).collect();
        assert_eq!(types, vec![ShipType::X, ShipType::V, ShipType::H, ShipType::I]);
        let mut total = 0;
        for ship in &board.ships {
            assert!(ship.alive);
            assert!([90, 180, 270, 360].contains(&ship.rotation));
            let cells = cells_named(&board, &ship.id);
            assert_eq!(cells.len(), ship.ship_type.size());
            total += cells.len();
            // the cells are those of the ship's mask, laid somewhere on the board
            let top = cells.iter().map(|c| c.0).min().unwrap();
            let left = cells.iter().map(|c| c.1).min().unwrap();
            let shape = ship.shape();
            let fits = |r0: usize, c0: usize| {
                (0..3).all(|i| {
                    (0..3).all(|j| (shape[i][j] == '*') == cells.contains(&(r0 + i, c0 + j)))
                })
            };
            assert!(fits(top, left) || (left > 0 && fits(top, left - 1)) || (top > 0 && fits(top - 1, left)));
        }
        let live = board
            .positions
            .iter()
            .flatten()
            .filter(|p| p.status == Status::Live)
            .count();
        assert_eq!(total, 20);
        assert_eq!(live, 20);
    }
}

#[test]
fn ships_of_a_fleet_have_names_of_their_own() {
    let mut rng = RandomSource::from_seed(12);
    let board = Board::new(true, &mut rng).unwrap();
    for (i, first) in board.ships.iter().enumerate() {
        for second in board.ships.iter().skip(i + 1) {
            assert_ne!(first.id, second.id);
        }
    }
}

#[test]
fn a_ship_is_named_by_a_random_uuid() {
    let mut rng = RandomSource::from_seed(13);
    let id = rng.ship_id();
    assert_eq!(id.len(), 36);
    let parts: Vec<&str> = id.split('-').collect();
    assert_eq!(parts.iter().map(|p| p.len()).collect::<Vec<_>>(), vec![8, 4, 4, 4, 12]);
    assert!(id.chars().all(|c| c == '-' || c.is_ascii_digit() || ('a'..='f').contains(&c)));
    assert_eq!(parts[2].chars().next(), Some('4'));
    assert!(matches!(parts[3].chars().next(), Some('8' | '9' | 'a' | 'b')));
    assert_ne!(rng.ship_id(), id);
}

#[test]
fn the_same_seed_gives_the_same_fleet() {
    let mut first = RandomSource::from_seed(14);
    let mut second = RandomSource::from_seed(14);
    let a = Board::new(true, &mut first).unwrap();
    let b = Board::new(true, &mut second).unwrap();
    assert_eq!(a, b);
    assert_eq!(a.to_string(), b.to_string());
    let mut third = RandomSource::from_seed(15);
    let c = Board::new(true, &mut third).unwrap();
    assert_ne!(a.to_string(), c.to_string());
}

#[test]
fn the_system_seeds_a_source() {
    assert!(entropy_seed().is_some());
    let mut rng = RandomSource::from_entropy().unwrap();
    assert!(rng.below(5) < 5);
}

#[test]
fn draws_stay_below_their_bound() {
    let mut rng = RandomSource::from_seed(16);
    for _ in 0..200 {
        assert_eq!(rng.below(1), 0);
        assert!(rng.below(3) < 3);
        let c = get_random_coordinate(&mut rng, 3);
        assert!(c.0 < ROWS - 3 && c.1 < COLUMNS - 3);
        let d = get_random_coordinate(&mut rng, 0);
        assert!(is_in_grid(d));
        let e = get_random_coordinate(&mut rng, 9);
        assert_eq!(e, (0, 0));
        assert!([90, 180, 270, 360].contains(&rng.rotation()));
    }
}

#[test]
fn draws_reach_every_row_and_every_rotation() {
    let mut rng = RandomSource::from_seed(17);
    let mut rows = [false; ROWS];
    let mut rotations = Vec::new();
    for _ in 0..500 {
        rows[get_random_coordinate(&mut rng, 0).0] = true;
        let r = rng.rotation();
        if !rotations.contains(&r) {
            rotations.push(r);
        }
    }
    assert!(rows.iter().all(|seen| *seen));
    rotations.sort();
    assert_eq!(rotations, vec![90, 180, 270, 360]);
}

#[test]
fn a_new_ship_is_afloat() {
    let mut rng = RandomSource::from_seed(18);
    let ship = Ship::new(ShipType::V, &mut rng);
    assert!(ship.alive);
    assert_eq!(ship.ship_type, ShipType::V);
    assert!([90, 180, 270, 360].contains(&ship.rotation));
    assert_eq!(ship.shape(), ShipType::V.get_shape(ship.rotation));
    assert_eq!(ship.clone(), ship);
}

#[test]
fn placing_a_ship_marks_its_cells() {
    let mut board = Board::empty();
    assert!(board.place(ship("a", ShipType::I, 90), (2, 4)));
    assert_eq!(cells_named(&board, "a"), vec![(2, 5), (3, 5), (4, 5)]);
    assert_eq!(board.ships.len(), 1);
    assert_eq!(board.ships[0].id, "a");
    assert!(board.has_ship(&"a".to_string()));
    assert!(!board.has_ship(&"b".to_string()));
    assert_eq!(
        board.to_string(),
        "..........\n..........\n.....*....\n.....*....\n.....*....\n..........\n..........\n..........\n..........\n.........."
    );
}

#[test]
fn a_ship_that_would_cover_a_live_cell_is_refused() {
    let mut board = Board::empty();
    assert!(board.place(ship("a", ShipType::I, 90), (2, 4)));
    let before = board.to_string();
    // the H ship has a cell in the middle of its box, which lies on (3, 5)
    assert!(!board.place(ship("b", ShipType::H, 90), (2, 4)));
    assert_eq!(board.to_string(), before);
    assert_eq!(board.ships.len(), 1);
    assert!(cells_named(&board, "b").is_empty());
}

#[test]
fn boxes_may_overlap_where_the_ships_do_not() {
    let mut board = Board::empty();
    assert!(board.place(ship("a", ShipType::I, 90), (0, 0)));
    // the X ship has no cell in the middle of its sides
    assert!(board.place(ship("b", ShipType::X, 90), (0, 0)) == false);
    assert!(board.place(ship("c", ShipType::I, 90), (0, 1)));
    assert_eq!(cells_named(&board, "a"), vec![(0, 1), (1, 1), (2, 1)]);
    assert_eq!(cells_named(&board, "c"), vec![(0, 2), (1, 2), (2, 2)]);
    assert_eq!(board.ships.len(), 2);
}

#[test]
fn a_second_ship_of_a_name_is_refused() {
    let mut board = Board::empty();
    assert!(board.place(ship("a", ShipType::I, 90), (0, 0)));
    assert!(!board.place(ship("a", ShipType::I, 90), (5, 5)));
    assert_eq!(board.ships.len(), 1);
    assert_eq!(cells_named(&board, "a").len(), 3);
}

#[test]
fn without_an_attempt_no_ship_is_placed() {
    let mut rng = RandomSource::from_seed(19);
    let mut board = Board::empty();
    assert!(!board.place_at_random(ShipType::X, &mut rng, 0));
    assert_eq!(board, Board::empty());
    assert_eq!(Board::with_fleet(&mut rng, 0), Err(SetupError::PlacementExhausted));
}

#[test]
fn a_full_board_has_no_room() {
    let mut rng = RandomSource::from_seed(20);
    let mut board = Board::empty();
    for row in board.positions.iter_mut() {
        for cell in row.iter_mut() {
            cell.status = Status::Live;
        }
    }
    let before = board.to_string();
    for ship_type in ShipType::get_initial_ships() {
        assert!(!board.place_at_random(ship_type, &mut rng, MAX_PLACEMENT_ATTEMPTS));
    }
    assert_eq!(board.to_string(), before);
    assert!(board.ships.is_empty());
}

#[test]
fn an_empty_board_has_room_at_the_first_attempt() {
    let mut rng = RandomSource::from_seed(21);
    let mut board = Board::empty();
    assert!(board.place_at_random(ShipType::H, &mut rng, 1));
    assert_eq!(board.ships.len(), 1);
    assert_eq!(cells_named(&board, &board.ships[0].id.clone()).len(), 7);
    // no cell of the last row or the last column is ever used
    assert!(board.positions[ROWS - 1].iter().all(|p| p.status == Status::Space));
    assert!(board.positions.iter().all(|row| row[COLUMNS - 1].status == Status::Space));
}

#[test]
fn the_board_as_lines_of_text() {
    let mut board = Board::empty();
    board.positions[0][0].status = Status::Live;
    board.positions[0][1].status = Status::Miss;
    board.positions[0][2].status = Status::Hit;
    board.positions[0][3].status = Status::Kill;
    let lines = board.as_grid();
    assert_eq!(lines.len(), ROWS);
    assert_eq!(lines[0], "*-XK......");
    assert_eq!(lines[1], "..........");
    assert_eq!(board.to_string(), lines.join("\n"));
}

#[test]
fn a_board_without_rows_is_empty_text() {
    let board = Board { positions: vec![], ships: vec![] };
    assert!(board.as_grid().is_empty());
    assert_eq!(board.to_string(), "");
    let one = Board { positions: vec![vec![Position::new((0, 0))]], ships: vec![] };
    assert_eq!(one.to_string(), ".");
}

#[test]
fn drawing_on_a_grid_without_cells_draws_nothing() {
    let s = ship("a", ShipType::X, 180);
    let mut none: Vec<Vec<Position>> = vec![];
    assert!(!s.draw(&mut none, (0, 0)));
    assert!(none.is_empty());
    let mut hollow: Vec<Vec<Position>> = vec![vec![]];
    assert!(!s.draw(&mut hollow, (0, 0)));
    assert_eq!(hollow, vec![vec![]]);
}

#[test]
fn drawing_keeps_the_other_cells() {
    let s = ship("a", ShipType::V, 270);
    let mut board = Board::empty();
    board.positions[9][9].status = Status::Miss;
    assert!(s.draw(&mut board.positions, (7, 7)));
    // V turned upside down: . * . / * . * / * . *
    assert_eq!(cells_named(&board, "a"), vec![(7, 8), (8, 7), (8, 9), (9, 7), (9, 9)]);
    assert_eq!(board.positions[9][9].status, Status::Live);
    assert_eq!(board.positions[9][8].status, Status::Space);
    assert_eq!(board.positions[7][7].ship_id, None);
    assert_eq!(board.positions[8][9].coordinate, (8, 9));
}

#[test]
fn only_live_cells_under_the_mask_overlap() {
    let s = ship("a", ShipType::X, 90);
    let mut board = Board::empty();
    // under an empty cell of the mask
    board.positions[0][1].status = Status::Live;
    assert!(!s.is_overlapping(&board.positions, (0, 0)));
    // a cell that was hit is no longer in the way
    board.positions[1][1].status = Status::Hit;
    assert!(!s.is_overlapping(&board.positions, (0, 0)));
    board.positions[2][2].status = Status::Live;
    assert!(s.is_overlapping(&board.positions, (0, 0)));
    assert!(!s.is_overlapping(&board.positions, (3, 3)));
}

#[test]
fn a_cell_shows_its_status() {
    let mut cell = Position::new((4, 2));
    assert_eq!(cell.symbol(), '.');
    cell.status = Status::Kill;
    assert_eq!(cell.symbol(), 'K');
    assert_eq!(cell.clone(), cell);
}

#[test]
fn a_source_needs_a_seed() {
    assert!(RandomSource::seeded_by(None).is_none());
    let mut first = RandomSource::seeded_by(Some(14)).unwrap();
    let mut second = RandomSource::from_seed(14);
    for _ in 0..20 {
        assert_eq!(first.below(1000), second.below(1000));
    }
}

#[test]
fn open_water_takes_a_ship_of_any_kind_at_once() {
    for seed in 0..30u64 {
        let mut rng = RandomSource::from_seed(seed);
        for ship_type in ShipType::get_initial_ships() {
            let mut board = Board::empty();
            assert!(board.place_at_random(ship_type, &mut rng, 1));
            assert_eq!(board.ships.len(), 1);
            assert_eq!(board.ships[0].ship_type, ship_type);
        }
    }
}
