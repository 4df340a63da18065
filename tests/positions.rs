use decaf_lsp::position::{position_le, Loc, Position, Range};
use decaf_lsp::tokens::{Token, TokenKind};
use decaf_lsp::{pos, range, range2, range_name, token};

fn p(line: u64, character: u64) -> Position {
    Position { line, character }
}

#[test]
fn unknown_line_maps_to_zero() {
    assert_eq!(pos(&Loc(0, 7)), p(0, 0));
}

#[test]
fn unknown_column_maps_to_zero() {
    assert_eq!(pos(&Loc(5, 0)), p(0, 0));
    assert_eq!(pos(&Loc(0, 0)), p(0, 0));
}

#[test]
fn known_location_is_shifted_by_one() {
    assert_eq!(pos(&Loc(3, 5)), p(2, 4));
    assert_eq!(pos(&Loc(1, 1)), p(0, 0));
    assert_eq!(pos(&Loc(u32::MAX, u32::MAX)), p(u32::MAX as u64 - 1, u32::MAX as u64 - 1));
}

#[test]
fn range_is_zero_width() {
    let r = range(&Loc(4, 9));
    assert_eq!(r, Range { start: p(3, 8), end: p(3, 8) });
}

#[test]
fn range2_spans_two_locations() {
    let r = range2(&Loc(1, 1), &Loc(3, 2));
    assert_eq!(r, Range { start: p(0, 0), end: p(2, 1) });
}

#[test]
fn named_range_spans_name_length() {
    let r = range_name(&Loc(2, 3), "foo");
    assert_eq!(r, Range { start: p(1, 2), end: p(1, 5) });
}

#[test]
fn named_range_counts_bytes() {
    let r = range_name(&Loc(1, 1), "é");
    assert_eq!(r, Range { start: p(0, 0), end: p(0, 2) });
}

#[test]
fn named_range_at_unknown_column() {
    // The start is the zero position; the end is the position of column `n`.
    let r = range_name(&Loc(1, 0), "abc");
    assert_eq!(r, Range { start: p(0, 0), end: p(0, 2) });
}

#[test]
fn token_range_ends_at_length_minus_two() {
    let t = Token { ty: TokenKind::IntLit, line: 1, col: 1, piece: b"123".to_vec() };
    assert_eq!(token(&t), Range { start: p(0, 0), end: p(0, 2) });
    let t = Token { ty: TokenKind::Class, line: 4, col: 10, piece: b"class".to_vec() };
    assert_eq!(token(&t), Range { start: p(3, 9), end: p(3, 13) });
}

#[test]
fn single_byte_token_is_zero_width() {
    let t = Token { ty: TokenKind::Semi, line: 2, col: 6, piece: b";".to_vec() };
    assert_eq!(token(&t), Range { start: p(1, 5), end: p(1, 5) });
    let t = Token { ty: TokenKind::Eof, line: 2, col: 6, piece: Vec::new() };
    assert_eq!(token(&t), Range { start: p(1, 5), end: p(1, 4) });
}

#[test]
fn positions_order_by_line_then_character() {
    assert!(position_le(&p(1, 9), &p(2, 0)));
    assert!(position_le(&p(2, 3), &p(2, 3)));
    assert!(!position_le(&p(2, 4), &p(2, 3)));
    assert!(!position_le(&p(3, 0), &p(2, 9)));
}
