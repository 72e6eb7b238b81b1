use pomp::cursor::{line_col_to_offset, offset_to_line_col};
use pomp::history::HistoryStack;
use pomp::render::{dec_string, lines_of_str, overflow_message, rendered_input_line_count};
use pomp::scroll::{adjust_anchor, count_lines, scroll_down, scroll_up, window_bounds};
use pomp::text::TextSpan;

#[test]
fn test_offset_line_col_round_trip_all_offsets() {
    let text = TextSpan::from_str("ab\ncd\n\nx");
    for k in 0..=text.len() {
        let (line, col) = offset_to_line_col(&text, k);
        assert_eq!(line_col_to_offset(&text, line, col), k);
    }
}

#[test]
fn test_offset_to_line_col_values() {
    let text = TextSpan::from_str("ab\ncd");
    assert_eq!(offset_to_line_col(&text, 0), (0, 0));
    assert_eq!(offset_to_line_col(&text, 2), (0, 2));
    assert_eq!(offset_to_line_col(&text, 3), (1, 0));
    assert_eq!(offset_to_line_col(&text, 5), (1, 2));
}

#[test]
fn test_line_col_to_offset_clamps_column() {
    let text = TextSpan::from_str("ab\ncd");
    // Column past the end of line 0 lands at the end of that line.
    assert_eq!(line_col_to_offset(&text, 0, 99), 2);
    // A line past the end of the text lands at the end of the text.
    assert_eq!(line_col_to_offset(&text, 9, 0), 5);
}

#[test]
fn test_text_span_editing() {
    let mut text = TextSpan::from_str("hllo");
    text.insert_char(1, 'e');
    assert_eq!(text.to_string_owned(), "hello");
    text.remove_char(0);
    assert_eq!(text.to_string_owned(), "ello");
    assert_eq!(text.len(), 4);
}

#[test]
fn test_trimmed_chars() {
    let text = TextSpan::from_str("  ab c \n");
    let trimmed: String = text.trimmed().into_iter().collect();
    assert_eq!(trimmed, "ab c");
}

#[test]
fn test_trimmed_matches_str_trim() {
    for s in ["", "  a  ", "\u{a0}x\u{3000}", "\t\n", "a b", "\u{2003}mid\u{85}"] {
        let t: String = TextSpan::from_str(s).trimmed().into_iter().collect();
        assert_eq!(t, s.trim(), "sample {:?}", s);
    }
}

#[test]
fn test_count_lines_matches_str_lines() {
    for sample in ["", "a", "a\n", "a\nb", "a\nb\n", "\n\n", "x\n\ny"] {
        let chars: Vec<char> = sample.chars().collect();
        assert_eq!(count_lines(&chars), sample.lines().count(), "sample {:?}", sample);
    }
}

#[test]
fn test_lines_of_str_splits() {
    assert_eq!(lines_of_str("a\nb\n"), vec!["a", "b"]);
    assert_eq!(lines_of_str("a\n\nb"), vec!["a", "", "b"]);
    assert!(lines_of_str("").is_empty());
}

#[test]
fn test_adjust_anchor_follows_cursor() {
    // Cursor below the window pulls the anchor down.
    assert_eq!(adjust_anchor(6, 0, 5), 2);
    // Cursor above the window pulls the anchor up.
    assert_eq!(adjust_anchor(1, 3, 5), 1);
    // Cursor inside the window leaves the anchor alone.
    assert_eq!(adjust_anchor(4, 2, 5), 2);
}

#[test]
fn test_scroll_clamping() {
    assert_eq!(scroll_up(2, 10), 0);
    assert_eq!(scroll_up(15, 10), 5);
    assert_eq!(scroll_down(0, 10, 4), 3);
    assert_eq!(scroll_down(0, 10, 0), 0);
    assert_eq!(scroll_down(25, 3, 30), 28);
}

#[test]
fn test_window_bounds() {
    assert_eq!(window_bounds(0, 5, 12), (0, 5));
    assert_eq!(window_bounds(10, 5, 12), (10, 12));
    assert_eq!(window_bounds(20, 5, 12), (11, 12));
    assert_eq!(window_bounds(3, 5, 0), (0, 0));
}

#[test]
fn test_rendered_input_line_count_minimum_one() {
    assert_eq!(rendered_input_line_count(&TextSpan::from_str("")), 1);
    assert_eq!(rendered_input_line_count(&TextSpan::from_str("a")), 1);
    assert_eq!(rendered_input_line_count(&TextSpan::from_str("a\nb\nc")), 3);
}

#[test]
fn test_dec_string() {
    assert_eq!(dec_string(0), "0");
    assert_eq!(dec_string(7), "7");
    assert_eq!(dec_string(105), "105");
}

#[test]
fn test_overflow_message_texts() {
    assert_eq!(overflow_message(10, 2).unwrap(), "2 more lines above, 3 below");
    assert_eq!(overflow_message(7, 2).unwrap(), "2 more lines above");
    assert_eq!(overflow_message(7, 0).unwrap(), "2 more lines below");
    assert_eq!(overflow_message(6, 1).unwrap(), "1 more line above");
    assert_eq!(overflow_message(5, 0), None);
}

#[test]
fn test_bounded_history_six_hundred_pushes() {
    let mut history = HistoryStack::new();
    for i in 0..600 {
        history.push_undo(&format!("snapshot {}", i));
    }
    assert_eq!(history.undo_len(), 500);
    // The oldest hundred snapshots were evicted; the newest survive.
    assert_eq!(history.undo_at(0), "snapshot 100");
    assert_eq!(history.undo_at(499), "snapshot 599");
    assert_eq!(history.redo_len(), 0);
}

#[test]
fn test_history_undo_redo_round_trip() {
    let mut history = HistoryStack::new();
    history.push_undo(&String::from("first"));
    let current = String::from("second");
    let popped = history.undo(&current).unwrap();
    assert_eq!(popped, "first");
    assert_eq!(history.redo_len(), 1);
    let replayed = history.redo(&popped).unwrap();
    assert_eq!(replayed, "second");
    assert_eq!(history.undo_len(), 1);
}
