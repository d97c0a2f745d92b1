use line_editor::stats::Stats;

fn stats_of(text: &str) -> Stats {
    let mut stats = Stats::default();
    stats.read(text);
    stats
}

#[test]
fn read_splits_on_newlines() {
    let stats = stats_of("ab\ncd");
    assert_eq!(stats.rows_num(), 2);
    assert_eq!(stats.get_row_len(0), 2);
    assert_eq!(stats.get_row_len(1), 2);
}

#[test]
fn read_empty_text_has_one_empty_line() {
    let stats = stats_of("");
    assert_eq!(stats.rows_num(), 1);
    assert_eq!(stats.get_row_len(0), 0);
}

#[test]
fn read_trailing_newline_gives_empty_last_line() {
    let stats = stats_of("abc\n");
    assert_eq!(stats.rows_num(), 2);
    assert_eq!(stats.get_row_len(0), 3);
    assert_eq!(stats.get_row_len(1), 0);
}

#[test]
fn read_counts_characters_not_bytes() {
    let stats = stats_of("\u{e9}t\u{e9}\nxy");
    assert_eq!(stats.get_row_len(0), 3);
    assert_eq!(stats.get_row_len(1), 2);
}

#[test]
fn read_appends_to_existing_lines() {
    let mut stats = stats_of("ab");
    stats.read("c\nde");
    assert_eq!(stats.rows_num(), 3);
    assert_eq!(stats.get_row_len(1), 1);
    assert_eq!(stats.get_cummulative_rows_len(0), 3);
    assert_eq!(stats.get_cummulative_rows_len(1), 5);
    assert_eq!(stats.get_cummulative_rows_len(2), 8);
}

#[test]
fn row_offsets_sum_preceding_lines() {
    let stats = stats_of("ab\n\ncdef\ng");
    assert_eq!(stats.row_start(0), 0);
    assert_eq!(stats.row_start(1), 3);
    assert_eq!(stats.row_start(2), 4);
    assert_eq!(stats.row_start(3), 9);
    assert_eq!(stats.get_cummulative_rows_len(0), 3);
    assert_eq!(stats.get_cummulative_rows_len(3), 11);
}

#[test]
fn previous_row_len_of_first_row_is_zero() {
    let stats = stats_of("abc\nd");
    assert_eq!(stats.previous_row_len(0), 0);
    assert_eq!(stats.previous_row_len(1), 3);
}

#[test]
fn update_row_len_grows_one_row_only() {
    let mut stats = stats_of("ab\ncd\nef");
    stats.update_row_len(1);
    assert_eq!(stats.get_row_len(0), 2);
    assert_eq!(stats.get_row_len(1), 3);
    assert_eq!(stats.get_row_len(2), 2);
    assert_eq!(stats.row_start(1), 3);
    assert_eq!(stats.row_start(2), 7);
    assert_eq!(stats.get_cummulative_rows_len(0), 3);
    assert_eq!(stats.get_cummulative_rows_len(2), 10);
}

#[test]
fn default_stats_is_empty() {
    let stats = Stats::default();
    assert_eq!(stats.rows_num(), 0);
}
