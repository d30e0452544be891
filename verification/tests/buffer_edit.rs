use smile::buffer::Buffer;
use smile::error::BufferError;
use smile::op::EditOp;

fn lines(buf: &Buffer) -> Vec<&str> {
    buf.content.iter().map(|s| s.as_str()).collect()
}

#[test]
fn new_buffer_is_one_empty_line() {
    let buf = Buffer::new("scratch");
    assert_eq!(lines(&buf), vec![""]);
    assert_eq!(buf.name, "scratch");
    assert!(buf.saved);
    assert!(buf.path.is_none());
    assert!(buf.file_info.is_none());
    assert_eq!(buf.get_line_count(), 1);
    assert_eq!(buf.history_ptr, 0);
    assert_eq!(buf.history.len(), 1);
}

#[test]
fn insert_and_undo_scenario() {
    let mut buf = Buffer::new("t");
    buf.insert_line(0).unwrap();
    buf.insert("hi", (0, 0)).unwrap();
    assert_eq!(buf.content[0], "hi");
    assert_eq!(lines(&buf), vec!["hi", ""]);
    buf.undo();
    buf.undo();
    assert_eq!(lines(&buf), vec![""]);
}

#[test]
fn insert_in_the_middle_and_past_the_end() {
    let mut buf = Buffer::from_content("hello", "t");
    buf.insert("XY", (2, 0)).unwrap();
    assert_eq!(buf.content[0], "heXYllo");
    buf.insert("!", (99, 0)).unwrap();
    assert_eq!(buf.content[0], "heXYllo!");
    assert!(!buf.saved);
}

#[test]
fn insert_on_missing_line_is_rejected_and_changes_nothing() {
    let mut buf = Buffer::from_content("a\nb", "t");
    let r = buf.insert("x", (0, 2));
    assert!(matches!(r, Err(BufferError::InvalidPosition)));
    assert_eq!(lines(&buf), vec!["a", "b"]);
    assert!(buf.saved);
    assert_eq!(buf.history.len(), 1);
}

#[test]
fn delete_removes_clusters() {
    let mut buf = Buffer::from_content("abcdef", "t");
    buf.delete(2, (1, 0)).unwrap();
    assert_eq!(buf.content[0], "adef");
    buf.delete(0, (4, 0)).unwrap();
    assert_eq!(buf.content[0], "adef");
}

#[test]
fn delete_past_the_line_is_rejected() {
    let mut buf = Buffer::from_content("abc", "t");
    assert!(matches!(buf.delete(2, (2, 0)), Err(BufferError::InvalidPosition)));
    assert!(matches!(buf.delete(1, (0, 1)), Err(BufferError::InvalidPosition)));
    assert!(matches!(buf.delete(usize::MAX, (1, 0)), Err(BufferError::InvalidPosition)));
    assert_eq!(buf.content[0], "abc");
    assert!(buf.saved);
}

#[test]
fn deleting_the_only_content_keeps_one_line() {
    let mut buf = Buffer::from_content("x", "t");
    buf.delete(1, (0, 0)).unwrap();
    assert_eq!(lines(&buf), vec![""]);
    let text = buf.delete_line(0).unwrap();
    assert_eq!(text, "");
    assert_eq!(lines(&buf), vec![""]);
    assert_eq!(buf.get_line_count(), 1);
}

#[test]
fn delete_line_returns_the_text() {
    let mut buf = Buffer::from_content("a\nb\nc", "t");
    assert_eq!(buf.delete_line(1).unwrap(), "b");
    assert_eq!(lines(&buf), vec!["a", "c"]);
    assert!(matches!(buf.delete_line(2), Err(BufferError::InvalidPosition)));
    assert_eq!(buf.delete_line(0).unwrap(), "a");
    assert_eq!(buf.delete_line(0).unwrap(), "c");
    assert_eq!(lines(&buf), vec![""]);
}

#[test]
fn insert_line_accepts_the_line_count_and_rejects_more() {
    let mut buf = Buffer::from_content("a", "t");
    buf.insert_line(1).unwrap();
    assert_eq!(lines(&buf), vec!["a", ""]);
    buf.insert_line(0).unwrap();
    assert_eq!(lines(&buf), vec!["", "a", ""]);
    assert!(matches!(buf.insert_line(4), Err(BufferError::InvalidPosition)));
    assert_eq!(buf.get_line_count(), 3);
}

#[test]
fn split_and_join_are_opposites() {
    let mut buf = Buffer::from_content("hello world", "t");
    buf.split_line_at((5, 0)).unwrap();
    assert_eq!(lines(&buf), vec!["hello", " world"]);
    buf.join_line_with_previous(1).unwrap();
    assert_eq!(lines(&buf), vec!["hello world"]);
    assert!(matches!(buf.join_line_with_previous(0), Err(BufferError::InvalidPosition)));
    assert!(matches!(buf.join_line_with_previous(1), Err(BufferError::InvalidPosition)));
    assert!(matches!(buf.split_line_at((0, 1)), Err(BufferError::InvalidPosition)));
}

#[test]
fn undo_then_redo_restores_every_state() {
    let mut buf = Buffer::from_content("one", "t");
    buf.insert(" two", (3, 0)).unwrap();
    buf.split_line_at((3, 0)).unwrap();
    buf.insert_line(0).unwrap();
    buf.delete(1, (0, 1)).unwrap();
    let end: Vec<String> = buf.content.clone();
    for n in 0..=4usize {
        for _ in 0..n {
            buf.undo();
        }
        for _ in 0..n {
            buf.redo();
        }
        assert_eq!(buf.content, end);
        assert_eq!(buf.history_ptr, 4);
    }
    for _ in 0..4 {
        buf.undo();
    }
    assert_eq!(lines(&buf), vec!["one"]);
    buf.undo();
    assert_eq!(lines(&buf), vec!["one"]);
    for _ in 0..9 {
        buf.redo();
    }
    assert_eq!(buf.content, end);
}

#[test]
fn a_new_change_drops_what_could_be_redone() {
    let mut buf = Buffer::from_content("a", "t");
    buf.insert("b", (1, 0)).unwrap();
    buf.insert("c", (2, 0)).unwrap();
    buf.revoke();
    assert_eq!(buf.content[0], "ab");
    buf.insert("z", (2, 0)).unwrap();
    assert_eq!(buf.history.len(), 3);
    buf.redo();
    assert_eq!(buf.content[0], "abz");
    buf.undo();
    buf.undo();
    assert_eq!(buf.content[0], "a");
}

#[test]
fn grapheme_clusters_are_never_split() {
    // "e" + combining acute, then a flag of two regional indicators.
    let mut buf = Buffer::from_content("e\u{301}\u{1F1E9}\u{1F1EA}x", "t");
    buf.insert("-", (1, 0)).unwrap();
    assert_eq!(buf.content[0], "e\u{301}-\u{1F1E9}\u{1F1EA}x");
    buf.delete(1, (2, 0)).unwrap();
    assert_eq!(buf.content[0], "e\u{301}-x");
    buf.delete(1, (0, 0)).unwrap();
    assert_eq!(buf.content[0], "-x");
}

#[test]
fn cursor_methods_follow_the_text() {
    let mut buf = Buffer::from_content("ab\nc", "t");
    buf.mv_cursor_right();
    buf.mv_cursor_right();
    assert_eq!(buf.cursor_pos, (2, 0));
    buf.mv_cursor_right();
    assert_eq!(buf.cursor_pos, (0, 1));
    buf.mv_cursor_left();
    assert_eq!(buf.cursor_pos, (2, 0));
    buf.mv_cursor_down();
    assert_eq!(buf.cursor_pos, (1, 1));
    buf.mv_cursor_up();
    assert_eq!(buf.cursor_pos, (1, 0));
    buf.mv_cursor_tail();
    assert_eq!(buf.cursor_pos, (2, 0));
    buf.mv_cursor_head();
    assert_eq!(buf.cursor_pos, (0, 0));
    buf.mv_cursor_up();
    buf.mv_cursor_left();
    assert_eq!(buf.cursor_pos, (0, 0));
}

#[test]
fn moving_down_from_the_last_line_appends_a_line() {
    let mut buf = Buffer::from_content("ab", "t");
    buf.cursor_pos = (2, 0);
    buf.mv_cursor_down();
    assert_eq!(lines(&buf), vec!["ab", ""]);
    assert_eq!(buf.cursor_pos, (0, 1));
    assert!(!buf.saved);
}

#[test]
fn backspace_and_enter_at_the_cursor() {
    let mut buf = Buffer::from_content("abc", "t");
    buf.cursor_pos = (2, 0);
    buf.handle_enter();
    assert_eq!(lines(&buf), vec!["ab", "c"]);
    assert_eq!(buf.cursor_pos, (0, 1));
    buf.handle_backspace();
    assert_eq!(lines(&buf), vec!["abc"]);
    assert_eq!(buf.cursor_pos, (2, 0));
    buf.handle_backspace();
    assert_eq!(lines(&buf), vec!["ac"]);
    assert_eq!(buf.cursor_pos, (1, 0));
    buf.handle_backspace();
    assert_eq!(buf.cursor_pos, (0, 0));
    let before = buf.history.len();
    buf.handle_backspace();
    assert_eq!(lines(&buf), vec!["c"]);
    assert_eq!(buf.history.len(), before);
}

#[test]
fn cursor_based_edits() {
    let mut buf = Buffer::from_content("hello", "t");
    buf.cursor_pos = (1, 0);
    buf.add_content_at("EY").unwrap();
    assert_eq!(buf.content[0], "hEYello");
    buf.delete_content_at(2).unwrap();
    assert_eq!(buf.content[0], "hello");
    let logged = buf.undo_log.len();
    buf.change_content_at(3, "ipp").unwrap();
    assert_eq!(buf.content[0], "hippo");
    assert_eq!(buf.undo_log.len(), logged + 2);
    assert!(matches!(buf.change_content_at(5, "x"), Err(BufferError::InvalidPosition)));
    buf.add_new_line().unwrap();
    assert_eq!(lines(&buf), vec!["", "hippo"]);
    buf.cursor_pos = (0, 7);
    assert!(matches!(buf.add_content_at("x"), Err(BufferError::InvalidPosition)));
    assert!(matches!(buf.delete_content_at(1), Err(BufferError::InvalidPosition)));
    assert!(matches!(buf.add_new_line(), Err(BufferError::InvalidPosition)));
    buf.check_cursor_pos();
    assert_eq!(buf.cursor_pos, (0, 1));
}

#[test]
fn change_name_only_renames() {
    let mut buf = Buffer::from_content("a", "old");
    buf.change_name("new");
    assert_eq!(buf.name, "new");
    assert_eq!(lines(&buf), vec!["a"]);
    assert!(buf.saved);
}

#[test]
fn handle_change_records_the_present_content() {
    let mut buf = Buffer::from_content("a", "t");
    buf.content[0].push('b');
    buf.handle_change(EditOp::Insert { pos: (1, 0), text: "b".to_string(), len: 1 });
    assert!(!buf.saved);
    assert_eq!(buf.history_ptr, 1);
    assert_eq!(buf.undo_log.len(), 1);
    buf.undo();
    assert_eq!(lines(&buf), vec!["a"]);
    buf.redo();
    assert_eq!(lines(&buf), vec!["ab"]);
}

#[test]
fn visual_width_counts_columns() {
    let buf = Buffer::from_content("a\u{4E2D}b\u{301}c", "t");
    assert_eq!(buf.get_visual_width_upto(0, 0), 0);
    assert_eq!(buf.get_visual_width_upto(0, 1), 1);
    assert_eq!(buf.get_visual_width_upto(0, 2), 3);
    assert_eq!(buf.get_visual_width_upto(0, 3), 4);
    assert_eq!(buf.get_visual_width_upto(0, 4), 5);
    assert_eq!(buf.get_visual_width_upto(0, 40), 5);
    assert_eq!(buf.get_line_visual_width(0), 5);
    assert_eq!(buf.checked_visual_width_upto(0, 2), Some(3));
    assert_eq!(buf.checked_visual_width_upto(1, 0), None);
    let mut last = 0;
    for k in 0..8 {
        let w = buf.get_visual_width_upto(0, k);
        assert!(w >= last);
        last = w;
    }
}

#[test]
fn update_scroll_keeps_the_far_margin_in_a_small_view() {
    let mut buf = Buffer::from_content("0\n1\n2\n3\n4\n5\n6\n7", "t");
    buf.scroll_thres = (0, 2);
    buf.scroll_offset = (0, 4);
    buf.cursor_pos = (0, 5);
    buf.update_scroll(3, 10);
    assert_eq!(buf.scroll_offset, (0, 5));
    assert_eq!(buf.cursor_pos, (0, 5));
    assert_eq!(buf.scroll_thres, (0, 2));
}

#[test]
fn vertical_moves_take_the_column_to_the_destination_line() {
    let mut buf = Buffer::from_content("abcdef\nab\nabcd", "t");
    // a column past the end of its own line
    buf.cursor_pos = (5, 1);
    buf.mv_cursor_up();
    assert_eq!(buf.cursor_pos, (5, 0));
    buf.cursor_pos = (5, 1);
    buf.mv_cursor_down();
    assert_eq!(buf.cursor_pos, (4, 2));
    buf.cursor_pos = (9, 0);
    buf.mv_cursor_up();
    assert_eq!(buf.cursor_pos, (9, 0));
    buf.cursor_pos = (3, 0);
    buf.mv_cursor_down();
    assert_eq!(buf.cursor_pos, (2, 1));
    // a line below the document counts as the last line
    buf.cursor_pos = (3, 9);
    buf.mv_cursor_up();
    assert_eq!(buf.cursor_pos, (2, 1));
    // sideways a column past the end is left alone or leaves the line
    buf.cursor_pos = (5, 1);
    buf.mv_cursor_left();
    assert_eq!(buf.cursor_pos, (4, 1));
    buf.cursor_pos = (5, 1);
    buf.mv_cursor_right();
    assert_eq!(buf.cursor_pos, (0, 2));
    buf.cursor_pos = (7, 2);
    buf.mv_cursor_right();
    assert_eq!(buf.cursor_pos, (7, 2));
    assert!(buf.saved);
    assert_eq!(buf.history_ptr, 0);
}

#[test]
fn update_scroll_keeps_the_cursor_in_view() {
    let mut buf = Buffer::from_content("0\n1\n2\n3\n4\n5\n6\n7\n8\n9", "t");
    buf.cursor_pos = (0, 7);
    buf.update_scroll(4, 10);
    assert_eq!(buf.scroll_offset, (0, 4));
    buf.cursor_pos = (0, 2);
    buf.update_scroll(4, 10);
    assert_eq!(buf.scroll_offset, (0, 2));
    buf.cursor_pos = (5, 50);
    buf.update_scroll(4, 10);
    assert_eq!(buf.cursor_pos, (1, 9));
    assert_eq!(buf.scroll_offset, (0, 6));
}

#[test]
fn every_change_is_logged_with_its_text() {
    let mut buf = Buffer::from_content("hello\nworld", "t");
    buf.insert("XY", (2, 0)).unwrap();
    assert!(matches!(
        buf.undo_log.last(),
        Some(EditOp::Insert { pos: (2, 0), text, len: 2 }) if text == "XY"
    ));
    buf.delete(3, (1, 0)).unwrap();
    assert!(matches!(
        buf.undo_log.last(),
        Some(EditOp::Delete { pos: (1, 0), text, len: 3 }) if text == "eXY"
    ));
    buf.insert_line(1).unwrap();
    assert!(matches!(
        buf.undo_log.last(),
        Some(EditOp::InsertLine { y: 1, text }) if text.is_empty()
    ));
    buf.delete_line(2).unwrap();
    assert!(matches!(
        buf.undo_log.last(),
        Some(EditOp::DeleteLine { y: 2, text }) if text == "world"
    ));
    buf.split_line_at((2, 0)).unwrap();
    assert!(matches!(
        buf.undo_log.last(),
        Some(EditOp::InsertBlock { start_pos: (2, 0), end_pos: (0, 1), text }) if text == "\n"
    ));
    buf.join_line_with_previous(1).unwrap();
    assert!(matches!(
        buf.undo_log.last(),
        Some(EditOp::DeleteBlock { start_pos: (2, 0), end_pos: (0, 1), text }) if text == "\n"
    ));
    buf.insert_block("a\nbc", (1, 0)).unwrap();
    assert!(matches!(
        buf.undo_log.last(),
        Some(EditOp::InsertBlock { start_pos: (1, 0), end_pos: (2, 1), text }) if text == "a\nbc"
    ));
    buf.insert_block("zz", (1, 1)).unwrap();
    assert!(matches!(
        buf.undo_log.last(),
        Some(EditOp::InsertBlock { start_pos: (1, 1), end_pos: (3, 1), .. })
    ));
    buf.delete_block((1, 0), (1, 1)).unwrap();
    assert!(matches!(
        buf.undo_log.last(),
        Some(EditOp::DeleteBlock { start_pos: (1, 0), end_pos: (1, 1), text }) if text == "a\nb"
    ));
    assert_eq!(buf.undo_log.len(), 9);
    assert_eq!(buf.history.len(), 10);
    assert_eq!(buf.history_ptr, 9);
    buf.undo();
    buf.undo();
    assert_eq!(buf.undo_log.len(), 9);
    assert_eq!(buf.history_ptr, 7);
    buf.insert("!", (0, 0)).unwrap();
    assert_eq!(buf.undo_log.len(), 8);
    assert_eq!(buf.history.len(), 9);
}

#[test]
fn replaying_the_log_gives_the_same_content() {
    let mut buf = Buffer::from_content("one two", "t");
    buf.insert("e\u{301}", (3, 0)).unwrap();
    buf.split_line_at((4, 0)).unwrap();
    buf.insert_block("a\nb", (0, 1)).unwrap();
    buf.delete_block((2, 0), (1, 2)).unwrap();
    buf.delete_line(0).unwrap();
    buf.insert_line_with(0, "top").unwrap();
    buf.delete(1, (0, 0)).unwrap();
    buf.join_line_with_previous(1).unwrap();
    let mut replay = Buffer::from_content("one two", "t");
    for (i, op) in buf.undo_log.iter().enumerate() {
        replay.apply_op(op).unwrap();
        assert_eq!(replay.content, buf.history[i + 1]);
    }
    assert_eq!(replay.content, buf.content);
}
