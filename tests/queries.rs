use decaf_lsp::position::{Position, Range};
use decaf_lsp::query::find_best;

fn p(line: u64, character: u64) -> Position {
    Position { line, character }
}

fn r(l1: u64, c1: u64, l2: u64, c2: u64) -> Range {
    Range { start: p(l1, c1), end: p(l2, c2) }
}

#[test]
fn zero_width_range_matches_its_point() {
    let entries = vec![(r(4, 2, 4, 2), "here")];
    assert_eq!(find_best(&entries, &p(4, 2)), Some(0));
    assert_eq!(find_best(&entries, &p(4, 3)), None);
    assert_eq!(find_best(&entries, &p(4, 1)), None);
}

#[test]
fn both_ends_are_included() {
    let entries = vec![(r(1, 2, 1, 6), 0u8)];
    assert_eq!(find_best(&entries, &p(1, 2)), Some(0));
    assert_eq!(find_best(&entries, &p(1, 6)), Some(0));
    assert_eq!(find_best(&entries, &p(1, 7)), None);
}

#[test]
fn nested_range_wins_after_outer() {
    // A spans lines 1-10, B lines 3-4; the query is on line 3.
    let entries = vec![(r(0, 0, 9, 0), "A"), (r(2, 0, 3, 0), "B")];
    assert_eq!(find_best(&entries, &p(2, 0)), Some(1));
}

#[test]
fn nested_range_wins_before_outer() {
    let entries = vec![(r(2, 0, 3, 0), "B"), (r(0, 0, 9, 0), "A")];
    assert_eq!(find_best(&entries, &p(2, 0)), Some(0));
}

#[test]
fn first_of_overlapping_ranges_wins() {
    let entries = vec![(r(0, 0, 0, 5), 1), (r(0, 3, 0, 9), 2)];
    assert_eq!(find_best(&entries, &p(0, 4)), Some(0));
    let entries = vec![(r(0, 3, 0, 9), 2), (r(0, 0, 0, 5), 1)];
    assert_eq!(find_best(&entries, &p(0, 4)), Some(0));
}

#[test]
fn equal_ranges_take_the_last() {
    let entries = vec![(r(0, 0, 0, 5), 1), (r(0, 0, 0, 5), 2)];
    assert_eq!(find_best(&entries, &p(0, 1)), Some(1));
}

#[test]
fn no_entries_no_match() {
    let entries: Vec<(Range, u8)> = Vec::new();
    assert_eq!(find_best(&entries, &p(0, 0)), None);
}

#[test]
fn no_containing_entry_no_match() {
    let entries = vec![(r(0, 0, 0, 5), 1), (r(2, 0, 2, 5), 2)];
    assert_eq!(find_best(&entries, &p(1, 0)), None);
    assert_eq!(find_best(&entries, &p(0, 6)), None);
}

#[test]
fn range_over_lines_contains_inner_columns() {
    let entries = vec![(r(1, 8, 3, 2), 1)];
    assert_eq!(find_best(&entries, &p(2, 100)), Some(0));
    assert_eq!(find_best(&entries, &p(1, 7)), None);
    assert_eq!(find_best(&entries, &p(3, 3)), None);
}
