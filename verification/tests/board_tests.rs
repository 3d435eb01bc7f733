use battleship::board::{Board, Point};
use battleship::placement::{board, try_place};
use battleship::tile::TileKind;

fn tiles(b: &Board) -> Vec<TileKind> {
    let mut out = Vec::new();
    for row in 0..10 {
        for col in 0..10 {
            out.push(b.at(Point { row, col }));
        }
    }
    out
}

#[test]
fn new_board_is_all_water() {
    let b = Board::new_water();
    assert!(tiles(&b).iter().all(|t| *t == TileKind::Water));
}

#[test]
fn vertical_ship_occupies_its_column_run() {
    let mut b = Board::new_water();
    assert!(try_place(&mut b, 3, 7, 4, true));
    for row in 0..10 {
        for col in 0..10 {
            let t = b.at(Point { row, col });
            if col == 7 && (3..7).contains(&row) {
                assert_eq!(t, TileKind::VerticalShip);
            } else {
                assert_eq!(t, TileKind::Water);
            }
        }
    }
}

#[test]
fn horizontal_ship_occupies_its_row_run() {
    let mut b = Board::new_water();
    assert!(try_place(&mut b, 1, 3, 2, false));
    for row in 0..10 {
        for col in 0..10 {
            let t = b.at(Point { row, col });
            if row == 1 && (3..5).contains(&col) {
                assert_eq!(t, TileKind::HorizontalShip);
            } else {
                assert_eq!(t, TileKind::Water);
            }
        }
    }
}

#[test]
fn overlapping_placement_is_refused_and_changes_nothing() {
    let mut b = Board::new_water();
    assert!(try_place(&mut b, 0, 0, 5, true));
    let before = tiles(&b);
    // would cover (2,0), which the vertical ship already holds
    assert!(!try_place(&mut b, 2, 0, 3, false));
    assert_eq!(before, tiles(&b));
}

#[test]
fn generated_board_has_17_ship_cells_and_83_water() {
    let mut rng = rand::thread_rng();
    let b = board(&mut rng).expect("generation found room for every ship");
    let ts = tiles(&b);
    let ships = ts.iter().filter(|t| t.is_ship()).count();
    let water = ts.iter().filter(|t| **t == TileKind::Water).count();
    assert_eq!(ships, 17);
    assert_eq!(water, 83);
}

#[test]
fn generated_boards_hold_no_resolved_cell() {
    let mut rng = rand::thread_rng();
    let b = board(&mut rng).expect("generation found room for every ship");
    for t in tiles(&b) {
        assert!(t != TileKind::HitShip && t != TileKind::Miss);
    }
}
