use battleship::board::{Board, Point};
use battleship::placement::try_place;
use battleship::render::show;
use battleship::resolve::guess;

fn rendered(b: &Board) -> String {
    String::from_utf8(show(b)).expect("rendering is ASCII")
}

fn header() -> String {
    let mut s = String::from(" ");
    for i in 0..10 {
        s.push(' ');
        s.push(char::from_digit(i, 10).unwrap());
    }
    s
}

#[test]
fn empty_board_renders_header_letters_and_blank_cells() {
    let b = Board::new_water();
    let mut expected = header();
    for r in 0..10u8 {
        expected.push('\n');
        expected.push((b'a' + r) as char);
        expected.push(' ');
        expected.push_str(&"  ".repeat(10));
    }
    expected.push('\n');
    assert_eq!(rendered(&b), expected);
}

fn row_line(letter: char, cells: [char; 10]) -> String {
    let mut s = String::new();
    s.push(letter);
    s.push(' ');
    for c in cells {
        s.push(c);
        s.push(' ');
    }
    s
}

#[test]
fn ships_hits_and_misses_use_their_glyphs() {
    let mut b = Board::new_water();
    assert!(try_place(&mut b, 0, 0, 2, true)); // '|' at a0 and b0
    assert!(try_place(&mut b, 4, 6, 3, false)); // '=' at e6..e8
    let mut counter: u8 = 0;
    guess(&mut b, &mut counter, Point { row: 0, col: 0 }); // 'x' at a0
    guess(&mut b, &mut counter, Point { row: 9, col: 9 }); // '.' at j9

    let text = rendered(&b);
    let lines: Vec<&str> = text.lines().collect();
    assert_eq!(lines.len(), 11);
    assert_eq!(lines[0], header());
    let w = ' ';
    assert_eq!(lines[1], row_line('a', ['x', w, w, w, w, w, w, w, w, w]));
    assert_eq!(lines[2], row_line('b', ['|', w, w, w, w, w, w, w, w, w]));
    assert_eq!(lines[5], row_line('e', [w, w, w, w, w, w, '=', '=', '=', w]));
    assert_eq!(lines[10], row_line('j', [w, w, w, w, w, w, w, w, w, '.']));
}
