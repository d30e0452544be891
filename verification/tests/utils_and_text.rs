use smile::error::{BufferError, LayoutError, RenderError};
use smile::grapheme::{checked_width_upto, line_insert, line_remove, line_split, width_upto};
use smile::op::EditOp;
use smile::scroll::{compute_scroll, compute_scroll_axis};
use smile::utils::{
    arc_vec_to_string, char_to_byte_idx, detect_line_ending, get_format_text, get_line_len,
    overlap, FileFormat, FileInfo,
};

#[test]
fn char_to_byte_idx_counts_bytes_of_whole_clusters() {
    assert_eq!(char_to_byte_idx("abc", 0), 0);
    assert_eq!(char_to_byte_idx("abc", 2), 2);
    assert_eq!(char_to_byte_idx("abc", 3), 3);
    assert_eq!(char_to_byte_idx("abc", 9), 3);
    // "a" + combining ring, "é", "ö" + combining macron below, CR LF
    let s = "a\u{310}e\u{301}o\u{308}\u{332}\r\n";
    assert_eq!(char_to_byte_idx(s, 1), 3);
    assert_eq!(char_to_byte_idx(s, 2), 6);
    assert_eq!(char_to_byte_idx(s, 3), 11);
    assert_eq!(char_to_byte_idx(s, 4), 13);
    assert_eq!(char_to_byte_idx("\u{4E2D}\u{6587}", 1), 3);
}

#[test]
fn get_line_len_counts_clusters() {
    assert_eq!(get_line_len(&String::new()), 0);
    assert_eq!(get_line_len(&"abc".to_string()), 3);
    assert_eq!(get_line_len(&"e\u{301}".to_string()), 1);
    assert_eq!(get_line_len(&"\u{1F1E9}\u{1F1EA}\u{1F1EB}\u{1F1F7}".to_string()), 2);
}

#[test]
fn detect_line_ending_looks_for_cr_lf() {
    assert_eq!(detect_line_ending(""), FileFormat::UNIX);
    assert_eq!(detect_line_ending("a\nb"), FileFormat::UNIX);
    assert_eq!(detect_line_ending("a\rb"), FileFormat::UNIX);
    assert_eq!(detect_line_ending("a\r\nb"), FileFormat::DOS);
    assert_eq!(detect_line_ending("a\nb\r\n"), FileFormat::DOS);
    assert_eq!(detect_line_ending("\r\r\n"), FileFormat::DOS);
    assert_eq!(detect_line_ending("\n\r"), FileFormat::UNIX);
}

#[test]
fn format_text_names_the_convention() {
    assert_eq!(get_format_text(FileFormat::DOS), "DOS");
    assert_eq!(get_format_text(FileFormat::UNIX), "UNIX");
}

#[test]
fn file_info_starts_empty() {
    assert_eq!(
        FileInfo::new(),
        FileInfo { size: 0, read_only: false, format: FileFormat::UNIX }
    );
}

#[test]
fn overlap_is_half_open() {
    assert!(overlap(0, 10, 5, 15));
    assert!(overlap(5, 15, 0, 10));
    assert!(!overlap(0, 10, 10, 20));
    assert!(!overlap(10, 20, 0, 10));
    assert!(overlap(0, 10, 9, 10));
    assert!(!overlap(0, 0, 0, 10));
    assert!(overlap(3, 3, 0, 10));
}

#[test]
fn line_helpers_work_on_cluster_boundaries() {
    let s = "e\u{301}bc";
    assert_eq!(line_insert(s, 1, "X"), "e\u{301}Xbc");
    assert_eq!(line_insert(s, 0, "X"), "Xe\u{301}bc");
    assert_eq!(line_insert(s, 7, "X"), "e\u{301}bcX");
    assert_eq!(line_remove(s, 0, 1), Some(("bc".to_string(), "e\u{301}".to_string())));
    assert_eq!(line_remove(s, 1, 2), Some(("e\u{301}".to_string(), "bc".to_string())));
    assert_eq!(line_remove(s, 3, 0), Some((s.to_string(), String::new())));
    assert_eq!(line_remove(s, 2, 2), None);
    assert_eq!(line_remove(s, 4, 0), None);
    assert_eq!(line_split(s, 1), ("e\u{301}".to_string(), "bc".to_string()));
    assert_eq!(line_split(s, 9), (s.to_string(), String::new()));
}

#[test]
fn widths_add_up_cluster_by_cluster() {
    let s = "\u{4E2D}a\u{6587}";
    assert_eq!(checked_width_upto(s, 0), Some(0));
    assert_eq!(checked_width_upto(s, 1), Some(2));
    assert_eq!(checked_width_upto(s, 2), Some(3));
    assert_eq!(checked_width_upto(s, 3), Some(5));
    assert_eq!(checked_width_upto(s, 4), Some(5));
    assert_eq!(width_upto(s, 2), 3);
}

#[test]
fn scroll_axis_values() {
    // cursor inside the view: the view stays
    assert_eq!(compute_scroll_axis(5, 10, 2, 0), 0);
    assert_eq!(compute_scroll_axis(7, 10, 2, 0), 0);
    // cursor past the far margin: the view follows
    assert_eq!(compute_scroll_axis(8, 10, 2, 0), 1);
    assert_eq!(compute_scroll_axis(30, 10, 2, 0), 23);
    // cursor before the near margin: the view goes back, not before 0
    assert_eq!(compute_scroll_axis(11, 10, 2, 10), 9);
    assert_eq!(compute_scroll_axis(1, 10, 2, 10), 0);
    assert_eq!(compute_scroll_axis(0, 10, 0, 3), 0);
    // without a margin
    assert_eq!(compute_scroll_axis(9, 10, 0, 0), 0);
    assert_eq!(compute_scroll_axis(10, 10, 0, 0), 1);
    // a view with no room for the near margin keeps the far one in full
    assert_eq!(compute_scroll_axis(5, 3, 2, 4), 5);
    assert_eq!(compute_scroll_axis(5, 3, 2, 5), 5);
    assert_eq!(compute_scroll_axis(5, 3, 2, 9), 5);
    assert_eq!(compute_scroll_axis(5, 4, 2, 5), 5);
    assert_eq!(compute_scroll_axis(5, 4, 2, 3), 4);
    assert_eq!(compute_scroll_axis(1, 4, 2, 0), 0);
    // a view with room for both margins keeps both
    assert_eq!(compute_scroll_axis(5, 5, 2, 5), 3);
    assert_eq!(compute_scroll_axis(5, 5, 2, 0), 3);
    // a view that is not larger than the margin starts at the cursor
    assert_eq!(compute_scroll_axis(10, 3, 5, 0), 10);
    assert_eq!(compute_scroll_axis(10, 5, 5, 20), 10);
    assert_eq!(compute_scroll_axis(10, 1, 5, 0), 10);
    assert_eq!(compute_scroll_axis(10, 0, 5, 0), 10);
    assert_eq!(compute_scroll_axis(usize::MAX, 10, 2, 0), usize::MAX - 7);
}

#[test]
fn compute_scroll_handles_both_axes() {
    assert_eq!(compute_scroll((30, 8), (20, 5), (1, 1), (0, 0)), (12, 5));
    assert_eq!(compute_scroll((3, 3), (20, 5), (1, 1), (0, 0)), (0, 0));
    assert_eq!(compute_scroll((0, 0), (20, 5), (1, 1), (7, 9)), (0, 0));
}

#[test]
fn inverse_swaps_insert_and_delete() {
    let op = EditOp::Insert { pos: (1, 2), text: "ab".to_string(), len: 2 };
    match op.inverse() {
        EditOp::Delete { pos, text, len } => {
            assert_eq!(pos, (1, 2));
            assert_eq!(text, "ab");
            assert_eq!(len, 2);
        }
        _ => panic!("expected Delete"),
    }
    match op.inverse().inverse() {
        EditOp::Insert { pos, text, len } => {
            assert_eq!((pos, text.as_str(), len), ((1, 2), "ab", 2));
        }
        _ => panic!("expected Insert"),
    }
    assert!(matches!(
        EditOp::InsertLine { y: 3, text: "x".to_string() }.inverse(),
        EditOp::DeleteLine { y: 3, .. }
    ));
    assert!(matches!(
        EditOp::DeleteLine { y: 3, text: "x".to_string() }.inverse(),
        EditOp::InsertLine { y: 3, .. }
    ));
    let block = EditOp::DeleteBlock { start_pos: (0, 0), end_pos: (1, 1), text: "a\nb".to_string() };
    match block.inverse() {
        EditOp::InsertBlock { start_pos, end_pos, text } => {
            assert_eq!((start_pos, end_pos, text.as_str()), ((0, 0), (1, 1), "a\nb"));
        }
        _ => panic!("expected InsertBlock"),
    }
    assert!(matches!(block.inverse().inverse(), EditOp::DeleteBlock { .. }));
    assert!(matches!(block.clone(), EditOp::DeleteBlock { .. }));
}

#[test]
fn errors_wrap_their_causes() {
    let io = std::io::Error::new(std::io::ErrorKind::NotFound, "gone");
    assert!(matches!(BufferError::from(io), BufferError::IOError(_)));
    let io = std::io::Error::new(std::io::ErrorKind::NotFound, "gone");
    assert!(matches!(LayoutError::from(io), LayoutError::IOError(_)));
    assert!(matches!(
        LayoutError::from(BufferError::InvalidId),
        LayoutError::BufferErr(BufferError::InvalidId)
    ));
    assert!(matches!(
        RenderError::from(BufferError::NotAFile),
        RenderError::BufferErr(BufferError::NotAFile)
    ));
    assert!(matches!(
        RenderError::from(LayoutError::NoNode),
        RenderError::LayoutErr(LayoutError::NoNode)
    ));
}

#[test]
fn a_stored_content_is_copied_line_by_line() {
    let v = vec!["a".to_string(), String::new(), "e\u{301}".to_string()];
    assert_eq!(arc_vec_to_string(&v), v);
    assert_eq!(arc_vec_to_string(&Vec::new()), Vec::<String>::new());
}
