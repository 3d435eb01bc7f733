use battleship::parse::parse_guess;

#[test]
fn parse_lowercase_guess() {
    let p = parse_guess(b"c4\n").unwrap();
    assert_eq!(p.row, 2);
    assert_eq!(p.col, 4);
}

#[test]
fn parse_uppercase_rejected() {
    assert!(parse_guess(b"C4\n").is_none());
}

#[test]
fn parse_empty_line_rejected_without_crash() {
    assert!(parse_guess(b"").is_none());
}

#[test]
fn parse_single_byte_rejected() {
    assert!(parse_guess(b"a").is_none());
}

#[test]
fn parse_corner_coordinates() {
    let p = parse_guess(b"a0\n").unwrap();
    assert_eq!(p.row, 0);
    assert_eq!(p.col, 0);
    let p = parse_guess(b"j9\n").unwrap();
    assert_eq!(p.row, 9);
    assert_eq!(p.col, 9);
}

#[test]
fn parse_out_of_range_rejected() {
    assert!(parse_guess(b"k0\n").is_none());
    assert!(parse_guess(b"a:\n").is_none());
    assert!(parse_guess(b"`5\n").is_none());
    assert!(parse_guess(b"4c\n").is_none());
}

#[test]
fn parse_ignores_trailing_bytes() {
    let p = parse_guess(b"b3 extra junk\n").unwrap();
    assert_eq!(p.row, 1);
    assert_eq!(p.col, 3);
}
