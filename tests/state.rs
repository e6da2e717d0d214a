use text_editor::open_files_data::ReadOutcome;
use text_editor::scroll::{scroll_step, Overshoot};
use text_editor::state::{AppState, ScrollError};
use text_editor::text::{count_lines, file_name, join, line_length};

fn ready_with(content: &str, write_mode: bool) -> AppState {
    let mut s = AppState::initialized();
    s.open_file("/tmp/f.txt", ReadOutcome::Text(content.to_string())).unwrap();
    s.toggle_write_mode(write_mode);
    s
}

#[test]
fn scrolling_down_stops_after_the_last_line() {
    let mut s = ready_with("a\nb\nc", true);
    for k in 1..=3u16 {
        assert_eq!(s.scroll_vertical(1), Ok(()));
        assert_eq!(s.get_scroll_offset(), (0, k));
    }
    assert_eq!(s.scroll_vertical(1), Err(ScrollError::PastEnd));
    assert_eq!(s.get_scroll_offset(), (0, 3));
    assert_eq!(ScrollError::PastEnd.message(), "Cannot scroll past end of file");
}

#[test]
fn scrolling_up_stops_at_the_first_line() {
    let mut s = ready_with("a\nb\nc", true);
    assert_eq!(s.scroll_vertical(-1), Err(ScrollError::PastStart));
    s.scroll_vertical(2).unwrap();
    assert_eq!(s.scroll_vertical(-5), Ok(()));
    assert_eq!(s.get_scroll_offset(), (0, 0));
    assert_eq!(s.scroll_vertical(0), Ok(()));
}

#[test]
fn a_large_step_stops_at_the_line_count() {
    let mut s = ready_with("a\nb\nc", true);
    assert_eq!(s.scroll_vertical(10), Ok(()));
    assert_eq!(s.get_scroll_offset(), (0, 3));
}

#[test]
fn scrolling_sideways_follows_the_current_line() {
    let mut s = ready_with("abc\nde", true);
    for k in 1..=3u16 {
        assert_eq!(s.scroll_horizontal(1), Ok(()));
        assert_eq!(s.get_scroll_offset(), (k, 0));
    }
    assert_eq!(s.scroll_horizontal(1), Err(ScrollError::PastEndOfLine));
    s.scroll_horizontal(-3).unwrap();
    assert_eq!(s.scroll_horizontal(-1), Err(ScrollError::PastStartOfLine));
    s.scroll_vertical(2).unwrap();
    assert_eq!(s.scroll_horizontal(1), Err(ScrollError::PastEndOfLine));
    assert_eq!(ScrollError::PastStartOfLine.message(), "Cannot scroll past start of line");
}

#[test]
fn next_and_previous_reset_the_view() {
    let mut s = AppState::initialized();
    s.open_file("A", ReadOutcome::Text("1\n2\n3".to_string())).unwrap();
    s.open_file("B", ReadOutcome::Text("x".to_string())).unwrap();
    assert_eq!(s.get_path(), "B");
    s.scroll_horizontal(1).unwrap();
    s.scroll_vertical(1).unwrap();
    assert_ne!(s.get_scroll_offset(), (0, 0));
    s.previous_file();
    assert_eq!(s.get_path(), "A");
    assert_eq!(s.get_scroll_offset(), (0, 0));
    s.scroll_vertical(2).unwrap();
    s.reset_scroll();
    assert_eq!(s.get_scroll_offset(), (0, 0));
    s.next_file();
    assert_eq!(s.get_path(), "B");
}

#[test]
fn read_only_text_carries_the_marker_once() {
    let mut s = ready_with("hello", true);
    assert_eq!(s.get_text(), "hello");
    s.toggle_write_mode(false);
    assert_eq!(s.get_text(), "hello (input mode)");
    assert_eq!(s.get_text(), "hello (input mode)");
    assert!(!s.is_write_mode());
}

#[test]
fn a_session_that_is_not_ready_does_nothing() {
    let mut s = AppState::default();
    assert!(!s.is_initialized());
    assert_eq!(s.get_text(), "");
    assert_eq!(s.get_path(), "..loading..");
    assert_eq!(s.get_all_open_file_names(), "..loading..");
    assert_eq!(s.get_scroll_offset(), (0, 0));
    assert_eq!(s.scroll_vertical(1), Ok(()));
    assert_eq!(s.scroll_horizontal(1), Ok(()));
    assert_eq!(s.open_file("a", ReadOutcome::Text("x".to_string())), Ok(()));
    assert_eq!(s.close_file(), Ok(()));
    assert_eq!(s.save_file(), Ok(None));
    s.record_saved("a");
    s.toggle_write_mode(true);
    assert!(!s.is_write_mode());
    s.replace_text("x");
    assert_eq!(s.get_text(), "");
    assert!(!s.is_initialized());
    assert_eq!(s.get_scroll_offset(), (0, 0));
}

#[test]
fn read_only_display_does_not_widen_the_scroll_bounds() {
    let mut s = ready_with("", false);
    assert_eq!(s.get_text(), " (input mode)");
    assert_eq!(s.scroll_vertical(1), Err(ScrollError::PastEnd));
    assert_eq!(s.scroll_horizontal(1), Err(ScrollError::PastEndOfLine));
    assert_eq!(s.get_scroll_offset(), (0, 0));

    let mut s = ready_with("ab\n", false);
    assert_eq!(s.scroll_vertical(1), Ok(()));
    assert_eq!(s.scroll_vertical(1), Err(ScrollError::PastEnd));
    assert_eq!(s.scroll_horizontal(1), Err(ScrollError::PastEndOfLine));
    s.scroll_vertical(-1).unwrap();
    s.scroll_horizontal(1).unwrap();
    s.scroll_horizontal(1).unwrap();
    assert_eq!(s.scroll_horizontal(1), Err(ScrollError::PastEndOfLine));
    assert_eq!(s.get_scroll_offset(), (2, 0));
}

#[test]
fn open_file_names_are_listed() {
    let mut s = AppState::initialized();
    assert_eq!(s.get_all_open_file_names(), "");
    s.open_file("/a/b/one.rs", ReadOutcome::Text(String::new())).unwrap();
    s.open_file("two", ReadOutcome::Text(String::new())).unwrap();
    assert_eq!(s.get_all_open_file_names(), "one.rs, two");
}

#[test]
fn replaced_text_is_shown() {
    let mut s = ready_with("old", true);
    s.replace_text("new");
    assert_eq!(s.get_text(), "new");
    let w = s.save_file().unwrap().unwrap();
    assert_eq!(w.content, "new");
    assert_eq!(w.path, "/tmp/f.txt");
}

#[test]
fn lines_are_counted_as_str_lines_counts_them() {
    for t in ["", "a", "a\n", "a\n\nb", "\n", "x\r\ny\r\n", "é\nü"] {
        assert_eq!(count_lines(t), t.lines().count());
    }
    assert_eq!(line_length("ab\r\ncd", 0), 2);
    assert_eq!(line_length("héllo\nx", 0), 5);
    assert_eq!(line_length("a\nb", 5), 0);
    assert_eq!(line_length("a\n\nbcd", 2), 3);
}

#[test]
fn file_names_and_joins() {
    assert_eq!(file_name("/a/b/c.txt"), "c.txt");
    assert_eq!(file_name("plain"), "plain");
    assert_eq!(file_name("dir/"), "");
    let v = vec!["x".to_string(), "y".to_string(), "z".to_string()];
    assert_eq!(join(&v, ", "), "x, y, z");
    assert_eq!(join(&Vec::new(), ", "), "");
}

#[test]
fn scroll_steps_are_clamped() {
    assert_eq!(scroll_step(0, 1, 1), Ok(1));
    assert_eq!(scroll_step(1, 1, 1), Err(Overshoot::PastEnd));
    assert_eq!(scroll_step(0, -1, 5), Err(Overshoot::PastStart));
    assert_eq!(scroll_step(3, -2, 5), Ok(1));
    assert_eq!(scroll_step(65534, 5, 100000), Ok(65535));
    assert_eq!(scroll_step(2, 0, 0), Ok(2));
}

#[test]
fn opening_or_closing_a_file_resets_the_view() {
    let mut s = ready_with("abc\ndef\nghi", true);
    s.scroll_vertical(2).unwrap();
    s.scroll_horizontal(1).unwrap();
    assert_eq!(s.get_scroll_offset(), (1, 2));
    assert!(s.open_file("/tmp/f.txt", ReadOutcome::Text("again".to_string())).is_err());
    assert_eq!(s.get_scroll_offset(), (1, 2));
    s.open_file("/tmp/g.txt", ReadOutcome::Text("x".to_string())).unwrap();
    assert_eq!(s.get_scroll_offset(), (0, 0));
    s.previous_file();
    s.scroll_vertical(1).unwrap();
    s.close_file().unwrap();
    assert_eq!(s.get_scroll_offset(), (0, 0));
    assert_eq!(s.get_path(), "/tmp/g.txt");
}
