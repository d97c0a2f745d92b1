use line_editor::cursor::Direction;
use line_editor::editor::{Editor, Event};

fn text_of(editor: &Editor) -> String {
    editor.text().into_iter().collect()
}

#[test]
fn scenario_three_rights_then_insert() {
    let mut e = Editor::new("ab\ncd", 80, 24);
    assert_eq!(e.cursor(), (0, 0));
    assert!(e.handle(Event::Move(Direction::Right)));
    assert_eq!(e.cursor(), (0, 1));
    assert!(e.handle(Event::Move(Direction::Right)));
    assert_eq!(e.cursor(), (0, 2));
    assert!(e.handle(Event::Move(Direction::Right)));
    assert_eq!(e.cursor(), (1, 0));
    assert!(e.handle(Event::Insert('x')));
    assert_eq!(text_of(&e), "ab\nxcd");
    assert_eq!(e.stats().get_row_len(1), 3);
    assert_eq!(e.stats().get_row_len(0), 2);
    assert_eq!(e.cursor(), (1, 1));
}

#[test]
fn insert_grows_only_its_row() {
    let mut e = Editor::new("abc\nde\nf", 80, 24);
    e.move_cursor(Direction::Down);
    e.move_cursor(Direction::Right);
    e.insert_character('z');
    assert_eq!(text_of(&e), "abc\ndze\nf");
    assert_eq!(e.stats().get_row_len(0), 3);
    assert_eq!(e.stats().get_row_len(1), 3);
    assert_eq!(e.stats().get_row_len(2), 1);
    assert_eq!(e.cursor(), (1, 2));
}

#[test]
fn insert_at_end_of_text() {
    let mut e = Editor::new("a\nb", 80, 24);
    e.move_cursor(Direction::Down);
    e.move_cursor(Direction::Right);
    e.insert_character('c');
    assert_eq!(text_of(&e), "a\nbc");
    assert_eq!(e.cursor(), (1, 2));
}

#[test]
fn insert_into_empty_text() {
    let mut e = Editor::new("", 80, 24);
    e.insert_character('h');
    e.insert_character('i');
    assert_eq!(text_of(&e), "hi");
    assert_eq!(e.cursor(), (0, 2));
}

#[test]
fn quit_stops_and_changes_nothing() {
    let mut e = Editor::new("ab", 80, 24);
    assert!(!e.handle(Event::Quit));
    assert_eq!(text_of(&e), "ab");
    assert_eq!(e.cursor(), (0, 0));
}

#[test]
fn newline_insert_is_ignored() {
    let mut e = Editor::new("ab", 80, 24);
    assert!(e.handle(Event::Insert('\n')));
    assert_eq!(text_of(&e), "ab");
    assert_eq!(e.stats().rows_num(), 1);
}

#[test]
fn from_char_maps_q_to_quit() {
    assert_eq!(Event::from_char('q'), Event::Quit);
    assert_eq!(Event::from_char('a'), Event::Insert('a'));
}

#[test]
fn window_scrolls_with_cursor() {
    let mut e = Editor::new("a\nb\nc\nd", 80, 2);
    assert_eq!(e.window(), (0, 2));
    e.move_cursor(Direction::Down);
    assert_eq!(e.window(), (0, 2));
    e.move_cursor(Direction::Down);
    assert_eq!(e.window(), (1, 3));
    e.move_cursor(Direction::Down);
    assert_eq!(e.window(), (2, 4));
    assert_eq!(e.caret(), (1, 0));
    e.move_cursor(Direction::Up);
    assert_eq!(e.window(), (2, 4));
    e.move_cursor(Direction::Up);
    assert_eq!(e.window(), (1, 3));
    assert_eq!(e.caret(), (0, 0));
}

#[test]
fn cursor_stays_in_window_over_many_moves() {
    let mut e = Editor::new("ab\n\ncde\nf\ngh\n", 80, 2);
    let moves = [
        Direction::Right, Direction::Right, Direction::Right, Direction::Right,
        Direction::Down, Direction::Down, Direction::Right, Direction::Right,
        Direction::Down, Direction::Down, Direction::Down, Direction::Left,
        Direction::Left, Direction::Up, Direction::Up, Direction::Up,
        Direction::Left, Direction::Up, Direction::Up, Direction::Up,
    ];
    for d in moves.iter() {
        e.handle(Event::Move(*d));
        let (row, _) = e.cursor();
        let (lower, upper) = e.window();
        assert!(lower <= row && row < upper);
        assert_eq!(upper - lower, 2);
    }
    assert_eq!(e.cursor(), (0, 2));
}

#[test]
fn edge_moves_leave_editor_unchanged() {
    let mut e = Editor::new("ab\ncd", 80, 24);
    e.move_cursor(Direction::Up);
    assert_eq!(e.cursor(), (0, 0));
    e.move_cursor(Direction::Left);
    assert_eq!(e.cursor(), (0, 0));
    e.move_cursor(Direction::Down);
    e.move_cursor(Direction::Down);
    assert_eq!(e.cursor(), (1, 0));
    e.move_cursor(Direction::Right);
    e.move_cursor(Direction::Right);
    e.move_cursor(Direction::Right);
    assert_eq!(e.cursor(), (1, 2));
}

#[test]
fn frame_draws_visible_rows() {
    let mut e = Editor::new("ab\nc\nde", 80, 2);
    assert_eq!(e.frame(), vec![(0, 0, 'a'), (0, 1, 'b'), (1, 0, 'c')]);
    e.move_cursor(Direction::Down);
    e.move_cursor(Direction::Down);
    assert_eq!(e.frame(), vec![(0, 0, 'c'), (1, 0, 'd'), (1, 1, 'e')]);
    assert_eq!(e.caret(), (1, 0));
}

#[test]
fn frame_of_short_text_in_tall_window() {
    let e = Editor::new("x\n\ny", 80, 10);
    assert_eq!(e.frame(), vec![(0, 0, 'x'), (2, 0, 'y')]);
}
