use battleship::board::Point;
use battleship::game::Game;
use battleship::tile::TileKind;

fn new_game(rng: &mut rand::rngs::ThreadRng) -> Game {
    loop {
        if let Some(g) = Game::new(rng) {
            return g;
        }
    }
}

#[test]
fn fresh_game_has_zero_counters() {
    let mut rng = rand::thread_rng();
    let g = new_game(&mut rng);
    assert_eq!(g.hits_on_your_board(), 0);
    assert_eq!(g.hits_on_computers_board(), 0);
    assert_eq!(g.unresolved_on_your_board(), 100);
}

#[test]
fn pick_on_a_fresh_board_is_the_kth_cell_in_row_major_order() {
    let mut rng = rand::thread_rng();
    let g = new_game(&mut rng);
    for k in 0..100 {
        let p = g.pick_unresolved(k);
        assert_eq!(p.row, k / 10);
        assert_eq!(p.col, k % 10);
    }
}

#[test]
fn computer_never_guesses_the_same_cell_twice() {
    let mut rng = rand::thread_rng();
    let mut g = new_game(&mut rng);
    let mut seen = [false; 100];
    for _ in 0..100 {
        assert!(g.unresolved_on_your_board() > 0);
        let p = g.computer_turn(&mut rng);
        let i = p.row * 10 + p.col;
        assert!(!seen[i], "computer repeated a guess");
        seen[i] = true;
    }
    assert!(seen.iter().all(|s| *s));
}

#[test]
fn computer_reaches_17_hits_within_100_guesses_and_game_stops() {
    let mut rng = rand::thread_rng();
    let mut g = new_game(&mut rng);
    let mut turns = 0;
    while !g.computer_wins() {
        assert!(g.unresolved_on_your_board() > 0, "ran out of cells before a win");
        g.computer_turn(&mut rng);
        turns += 1;
        assert!(turns <= 100, "game did not terminate within 100 computer guesses");
    }
    assert_eq!(g.hits_on_your_board(), 17);
}

#[test]
fn human_guessing_every_cell_wins_with_17_hits() {
    let mut rng = rand::thread_rng();
    let mut g = new_game(&mut rng);
    let mut hits = 0;
    for row in 0..10 {
        for col in 0..10 {
            assert!(!g.human_wins() || hits == 17);
            if g.human_turn(Point { row, col }) {
                hits += 1;
            }
        }
    }
    assert_eq!(hits, 17);
    assert_eq!(g.hits_on_computers_board(), 17);
    assert!(g.human_wins());

    // the finished view shows 17 hits and no raw ship tile
    let mut view_hits = 0;
    for row in 0..10 {
        for col in 0..10 {
            let t = g.view().at(Point { row, col });
            assert!(t == TileKind::HitShip || t == TileKind::Miss);
            if t == TileKind::HitShip {
                view_hits += 1;
            }
        }
    }
    assert_eq!(view_hits, 17);
}

#[test]
fn human_turn_reports_hits_faithfully() {
    let mut rng = rand::thread_rng();
    let mut g = new_game(&mut rng);
    for row in 0..10 {
        for col in 0..10 {
            let p = Point { row, col };
            let was_ship = g.computers_board().at(p).is_ship();
            let hit = g.human_turn(p);
            assert_eq!(hit, was_ship);
            assert_eq!(g.view().at(p), if hit { TileKind::HitShip } else { TileKind::Miss });
        }
    }
}
