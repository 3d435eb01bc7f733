use battleship::board::{Board, Point};
use battleship::placement::try_place;
use battleship::resolve::{changeview, guess};
use battleship::tile::TileKind;

#[test]
fn tile_classification() {
    assert!(TileKind::VerticalShip.is_ship());
    assert!(TileKind::HorizontalShip.is_ship());
    assert!(!TileKind::Water.is_ship());
    assert!(!TileKind::Miss.is_ship());
    assert!(!TileKind::HitShip.is_ship());
    assert!(TileKind::HitShip.is_hit());
    assert!(!TileKind::VerticalShip.is_hit());
    assert!(!TileKind::Water.is_hit());
}

#[test]
fn hit_marks_cell_and_increments_counter_once() {
    let mut b = Board::new_water();
    assert!(try_place(&mut b, 5, 5, 3, true));
    let mut counter: u8 = 0;
    let p = Point { row: 6, col: 5 };

    assert!(guess(&mut b, &mut counter, p));
    assert_eq!(counter, 1);
    assert_eq!(b.at(p), TileKind::HitShip);

    // guessing the same cell again reports a hit but counts nothing
    assert!(guess(&mut b, &mut counter, p));
    assert_eq!(counter, 1);
    assert_eq!(b.at(p), TileKind::HitShip);
}

#[test]
fn miss_marks_cell_and_is_idempotent() {
    let mut b = Board::new_water();
    assert!(try_place(&mut b, 0, 0, 2, false));
    let mut counter: u8 = 0;
    let p = Point { row: 9, col: 9 };

    assert!(!guess(&mut b, &mut counter, p));
    assert_eq!(counter, 0);
    assert_eq!(b.at(p), TileKind::Miss);

    assert!(!guess(&mut b, &mut counter, p));
    assert_eq!(counter, 0);
    assert_eq!(b.at(p), TileKind::Miss);
}

#[test]
fn two_cell_ship_guessed_twice_counts_to_two_and_shows_in_view() {
    // a length-2 ship placed horizontally at row 'b' (row 1), columns 3-4
    let mut b = Board::new_water();
    assert!(try_place(&mut b, 1, 3, 2, false));
    let mut view = Board::new_water();
    let mut counter: u8 = 0;

    let b3 = Point { row: 1, col: 3 };
    let b4 = Point { row: 1, col: 4 };
    assert!(guess(&mut b, &mut counter, b3));
    changeview(&mut view, &b, b3);
    assert!(guess(&mut b, &mut counter, b4));
    changeview(&mut view, &b, b4);

    assert_eq!(counter, 2);
    assert_eq!(view.at(b3), TileKind::HitShip);
    assert_eq!(view.at(b4), TileKind::HitShip);
}

#[test]
fn view_shows_misses_and_never_raw_ship_tiles() {
    let mut b = Board::new_water();
    assert!(try_place(&mut b, 2, 2, 5, false));
    let mut view = Board::new_water();
    let mut counter: u8 = 0;

    // one miss and one hit, each copied into the view
    let miss_at = Point { row: 0, col: 0 };
    guess(&mut b, &mut counter, miss_at);
    changeview(&mut view, &b, miss_at);
    let hit_at = Point { row: 2, col: 4 };
    guess(&mut b, &mut counter, hit_at);
    changeview(&mut view, &b, hit_at);

    assert_eq!(view.at(miss_at), TileKind::Miss);
    assert_eq!(view.at(hit_at), TileKind::HitShip);
    for row in 0..10 {
        for col in 0..10 {
            let t = view.at(Point { row, col });
            assert!(!t.is_ship(), "view revealed an unguessed ship tile");
        }
    }
}
