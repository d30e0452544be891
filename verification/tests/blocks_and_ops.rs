use smile::buffer::Buffer;
use smile::error::BufferError;
use smile::op::EditOp;

fn text_of(buf: &Buffer) -> String {
    buf.text()
}

#[test]
fn insert_block_breaks_lines_at_line_feeds() {
    let mut buf = Buffer::from_content("hello world", "t");
    buf.insert_block("A\nB\nC", (5, 0)).unwrap();
    assert_eq!(text_of(&buf), "helloA\nB\nC world");
    buf.insert_block("x", (0, 1)).unwrap();
    assert_eq!(text_of(&buf), "helloA\nxB\nC world");
    buf.insert_block("\n", (1, 2)).unwrap();
    assert_eq!(text_of(&buf), "helloA\nxB\nC\n world");
    buf.insert_block("", (0, 0)).unwrap();
    assert_eq!(text_of(&buf), "helloA\nxB\nC\n world");
    assert!(matches!(buf.insert_block("q", (0, 4)), Err(BufferError::InvalidPosition)));
    assert_eq!(buf.history_ptr, 4);
}

#[test]
fn delete_block_joins_the_ends_and_returns_the_text() {
    let mut buf = Buffer::from_content("abc\ndef\nghi\njkl", "t");
    assert_eq!(buf.delete_block((1, 0), (2, 2)).unwrap(), "bc\ndef\ngh");
    assert_eq!(text_of(&buf), "ai\njkl");
    assert_eq!(buf.delete_block((0, 0), (1, 0)).unwrap(), "a");
    assert_eq!(text_of(&buf), "i\njkl");
    assert_eq!(buf.delete_block((1, 0), (0, 1)).unwrap(), "\n");
    assert_eq!(text_of(&buf), "ijkl");
    assert_eq!(buf.delete_block((2, 0), (2, 0)).unwrap(), "");
    assert_eq!(text_of(&buf), "ijkl");
}

#[test]
fn delete_block_rejects_bad_ranges() {
    let mut buf = Buffer::from_content("abc\ndef", "t");
    assert!(matches!(buf.delete_block((2, 0), (1, 0)), Err(BufferError::InvalidPosition)));
    assert!(matches!(buf.delete_block((0, 1), (0, 0)), Err(BufferError::InvalidPosition)));
    assert!(matches!(buf.delete_block((0, 0), (0, 2)), Err(BufferError::InvalidPosition)));
    assert!(matches!(buf.delete_block((4, 0), (0, 1)), Err(BufferError::InvalidPosition)));
    assert!(matches!(buf.delete_block((0, 0), (4, 1)), Err(BufferError::InvalidPosition)));
    assert_eq!(text_of(&buf), "abc\ndef");
    assert!(buf.saved);
}

#[test]
fn block_insert_and_delete_undo_each_other() {
    let mut buf = Buffer::from_content("one two", "t");
    buf.insert_block("X\nYY\nZ", (3, 0)).unwrap();
    assert_eq!(text_of(&buf), "oneX\nYY\nZ two");
    assert_eq!(buf.delete_block((3, 0), (1, 2)).unwrap(), "X\nYY\nZ");
    assert_eq!(text_of(&buf), "one two");
}

#[test]
fn apply_op_carries_out_every_kind_of_edit() {
    let mut buf = Buffer::from_content("abc", "t");
    buf.apply_op(&EditOp::Insert { pos: (1, 0), text: "XY".to_string(), len: 2 }).unwrap();
    assert_eq!(text_of(&buf), "aXYbc");
    buf.apply_op(&EditOp::Delete { pos: (1, 0), text: "XY".to_string(), len: 2 }).unwrap();
    assert_eq!(text_of(&buf), "abc");
    buf.apply_op(&EditOp::InsertLine { y: 1, text: "second".to_string() }).unwrap();
    assert_eq!(text_of(&buf), "abc\nsecond");
    buf.apply_op(&EditOp::DeleteLine { y: 0, text: "abc".to_string() }).unwrap();
    assert_eq!(text_of(&buf), "second");
    let op = EditOp::InsertBlock { start_pos: (3, 0), end_pos: (1, 1), text: "-\n-".to_string() };
    buf.apply_op(&op).unwrap();
    assert_eq!(text_of(&buf), "sec-\n-ond");
    buf.apply_op(&op.inverse()).unwrap();
    assert_eq!(text_of(&buf), "second");
    assert_eq!(buf.history_ptr, 6);
}

#[test]
fn apply_op_rejects_what_does_not_fit() {
    let mut buf = Buffer::from_content("abc", "t");
    let bad = [
        EditOp::Insert { pos: (0, 1), text: "x".to_string(), len: 1 },
        EditOp::Delete { pos: (2, 0), text: "cd".to_string(), len: 2 },
        EditOp::InsertLine { y: 2, text: String::new() },
        EditOp::DeleteLine { y: 1, text: String::new() },
        EditOp::InsertBlock { start_pos: (0, 3), end_pos: (0, 3), text: "x".to_string() },
        EditOp::DeleteBlock { start_pos: (0, 0), end_pos: (0, 1), text: String::new() },
    ];
    for op in bad.iter() {
        assert!(matches!(buf.apply_op(op), Err(BufferError::InvalidPosition)));
    }
    assert_eq!(text_of(&buf), "abc");
    assert_eq!(buf.history_ptr, 0);
}

#[test]
fn an_edit_and_its_inverse_restore_the_lines() {
    let mut buf = Buffer::from_content("a\nb", "t");
    let op = EditOp::InsertLine { y: 1, text: "mid".to_string() };
    buf.apply_op(&op).unwrap();
    buf.apply_op(&op.inverse()).unwrap();
    assert_eq!(text_of(&buf), "a\nb");
    let op = EditOp::DeleteLine { y: 0, text: "a".to_string() };
    buf.apply_op(&op).unwrap();
    buf.apply_op(&op.inverse()).unwrap();
    assert_eq!(text_of(&buf), "a\nb");
    let op = EditOp::Insert { pos: (1, 1), text: "zz".to_string(), len: 2 };
    buf.apply_op(&op).unwrap();
    buf.apply_op(&op.inverse()).unwrap();
    assert_eq!(text_of(&buf), "a\nb");
}

#[test]
fn insert_line_with_puts_the_text_in() {
    let mut buf = Buffer::from_content("a", "t");
    buf.insert_line_with(0, "first").unwrap();
    assert_eq!(text_of(&buf), "first\na");
    assert!(matches!(buf.insert_line_with(3, "x"), Err(BufferError::InvalidPosition)));
}
