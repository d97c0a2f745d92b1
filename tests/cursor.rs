use line_editor::cursor::{Cursor, Direction};
use line_editor::stats::Stats;

fn stats_of(text: &str) -> Stats {
    let mut stats = Stats::default();
    stats.read(text);
    stats
}

fn at(row: usize, col: usize) -> Cursor {
    let mut c = Cursor::new(80);
    c.row = row;
    c.col = col;
    c
}

#[test]
fn new_cursor_is_at_origin() {
    let c = Cursor::new(10);
    assert_eq!(c.tuple(), (0, 0));
    assert_eq!(c.width, 10);
}

#[test]
fn reset_returns_to_origin_and_keeps_width() {
    let mut c = at(3, 4);
    c.reset();
    assert_eq!(c.tuple(), (0, 0));
    assert_eq!(c.width, 80);
}

#[test]
fn advance_row_goes_to_next_line_start() {
    let mut c = at(1, 5);
    c.advance_row();
    assert_eq!(c.tuple(), (2, 0));
}

#[test]
fn advance_without_stats_wraps_at_width() {
    let mut c = Cursor::new(2);
    c.advance(None);
    assert_eq!(c.tuple(), (0, 1));
    c.advance(None);
    assert_eq!(c.tuple(), (0, 2));
    c.advance(None);
    assert_eq!(c.tuple(), (1, 0));
}

#[test]
fn right_wraps_to_next_line() {
    let stats = stats_of("ab\ncd");
    let mut c = at(0, 2);
    c.advance(Some(&stats));
    assert_eq!(c.tuple(), (1, 0));
}

#[test]
fn left_wraps_to_end_of_previous_line() {
    let stats = stats_of("abc\nd");
    let mut c = at(1, 0);
    c.moveit(&Direction::Left, &stats);
    assert_eq!(c.tuple(), (0, 3));
    c.moveit(&Direction::Left, &stats);
    assert_eq!(c.tuple(), (0, 2));
}

#[test]
fn up_and_down_reset_column() {
    let stats = stats_of("abc\ndef\nghi");
    let mut c = at(1, 2);
    c.moveit(&Direction::Up, &stats);
    assert_eq!(c.tuple(), (0, 0));
    let mut c = at(1, 2);
    c.moveit(&Direction::Down, &stats);
    assert_eq!(c.tuple(), (2, 0));
}

#[test]
fn edge_moves_are_no_ops() {
    let stats = stats_of("ab\ncd");
    let mut c = at(0, 1);
    c.moveit(&Direction::Up, &stats);
    assert_eq!(c.tuple(), (0, 1));
    let mut c = at(1, 1);
    c.moveit(&Direction::Down, &stats);
    assert_eq!(c.tuple(), (1, 1));
    let mut c = at(0, 0);
    c.moveit(&Direction::Left, &stats);
    assert_eq!(c.tuple(), (0, 0));
    let mut c = at(1, 2);
    c.moveit(&Direction::Right, &stats);
    assert_eq!(c.tuple(), (1, 2));
    c.advance(Some(&stats));
    assert_eq!(c.tuple(), (1, 2));
}

#[test]
fn right_then_left_returns_to_origin() {
    let stats = stats_of("ab\n\ncd");
    let positions = [(0, 0), (0, 1), (0, 2), (1, 0), (2, 0), (2, 1)];
    for &(row, col) in positions.iter() {
        let mut c = at(row, col);
        c.moveit(&Direction::Right, &stats);
        c.moveit(&Direction::Left, &stats);
        assert_eq!(c.tuple(), (row, col));
    }
}
