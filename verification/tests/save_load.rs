use smile::buffer::{Buffer, FileProbe};
use smile::error::BufferError;
use smile::lines::{join_text, load_lines, split_text, strip_trailing_cr};
use smile::utils::{FileFormat, FileInfo};

#[test]
fn save_round_trip_scenario() {
    let mut buf = Buffer::from_content("a\nb", "t");
    buf.insert("", (0, 0)).unwrap();
    assert!(!buf.saved);
    let req = buf.save_to("/tmp/file.txt");
    assert_eq!(req.path, "/tmp/file.txt");
    assert_eq!(req.text, "a\nb");
    buf.finish_save("/tmp/file.txt", Some("file.txt"), 3, false);
    assert!(buf.saved);
    assert_eq!(buf.name, "file.txt");
    assert_eq!(buf.path.as_deref(), Some("/tmp/file.txt"));

    let probe = FileProbe::Loaded { text: req.text.clone(), size: 3, read_only: false };
    let loaded = Buffer::from_file("/tmp/file.txt", "file.txt", probe).ok().unwrap();
    assert_eq!(loaded.content, vec!["a".to_string(), "b".to_string()]);
    assert!(loaded.saved);
    assert_eq!(loaded.path.as_deref(), Some("/tmp/file.txt"));
    assert_eq!(
        loaded.file_info,
        Some(FileInfo { size: 3, read_only: false, format: FileFormat::UNIX })
    );
}

#[test]
fn save_without_a_path_is_an_error() {
    let buf = Buffer::new("t");
    assert!(matches!(buf.save(), Err(BufferError::InvalidPath)));
}

#[test]
fn save_with_a_path_asks_for_the_joined_lines() {
    let probe = FileProbe::Loaded { text: "x\r\ny\r\n".to_string(), size: 6, read_only: true };
    let mut buf = Buffer::from_file("p.txt", "p.txt", probe).ok().unwrap();
    assert_eq!(buf.content, vec!["x".to_string(), "y".to_string()]);
    assert_eq!(
        buf.file_info,
        Some(FileInfo { size: 6, read_only: true, format: FileFormat::DOS })
    );
    let req = buf.save().ok().unwrap();
    assert_eq!(req.path, "p.txt");
    assert_eq!(req.text, "x\ny");
    buf.insert("z", (1, 1)).unwrap();
    buf.finish_save("other.txt", Some("other.txt"), 4, false);
    assert_eq!(buf.path.as_deref(), Some("p.txt"));
    assert_eq!(buf.name, "p.txt");
    assert!(buf.saved);
    assert_eq!(
        buf.file_info,
        Some(FileInfo { size: 4, read_only: false, format: FileFormat::UNIX })
    );
}

#[test]
fn from_file_reports_what_was_found() {
    let r = Buffer::from_file("dir", "dir", FileProbe::NotAFile);
    assert!(matches!(r, Err(BufferError::NotAFile)));
    let cause = std::io::Error::new(std::io::ErrorKind::PermissionDenied, "no");
    let r = Buffer::from_file("f", "f", FileProbe::Unreadable(cause));
    match r {
        Err(BufferError::IOError(e)) => assert_eq!(e.kind(), std::io::ErrorKind::PermissionDenied),
        _ => panic!("expected an I/O error"),
    }
}

#[test]
fn an_empty_file_is_one_empty_line() {
    let probe = FileProbe::Loaded { text: String::new(), size: 0, read_only: false };
    let buf = Buffer::from_file("e", "e", probe).ok().unwrap();
    assert_eq!(buf.content, vec![String::new()]);
}

#[test]
fn split_text_breaks_at_every_line_feed() {
    assert_eq!(split_text(""), vec![""]);
    assert_eq!(split_text("a"), vec!["a"]);
    assert_eq!(split_text("a\nb"), vec!["a", "b"]);
    assert_eq!(split_text("a\n"), vec!["a", ""]);
    assert_eq!(split_text("\n\nx"), vec!["", "", "x"]);
    assert_eq!(split_text("a\r\nb"), vec!["a\r", "b"]);
}

#[test]
fn join_text_puts_line_feeds_between_lines() {
    let v = |xs: &[&str]| xs.iter().map(|s| s.to_string()).collect::<Vec<String>>();
    assert_eq!(join_text(&v(&[])), "");
    assert_eq!(join_text(&v(&["a"])), "a");
    assert_eq!(join_text(&v(&["a", "b", ""])), "a\nb\n");
    assert_eq!(split_text(&join_text(&v(&["x", "", "y"]))), v(&["x", "", "y"]));
}

#[test]
fn load_lines_reads_like_a_file() {
    assert_eq!(load_lines(""), vec![""]);
    assert_eq!(load_lines("a\nb\n"), vec!["a", "b"]);
    assert_eq!(load_lines("a\nb"), vec!["a", "b"]);
    assert_eq!(load_lines("a\r\nb\r\n"), vec!["a", "b"]);
    assert_eq!(load_lines("a\r\nb\r"), vec!["a", "b\r"]);
    assert_eq!(load_lines("\n"), vec![""]);
    assert_eq!(load_lines("\n\n"), vec!["", ""]);
    assert_eq!(strip_trailing_cr("x\r"), "x");
    assert_eq!(strip_trailing_cr("x\r\r"), "x\r");
    assert_eq!(strip_trailing_cr("\rx"), "\rx");
}

#[test]
fn refresh_file_info_takes_the_metadata() {
    let mut buf = Buffer::from_content("a\nb", "t");
    buf.refresh_file_info(10, true);
    assert_eq!(
        buf.file_info,
        Some(FileInfo { size: 10, read_only: true, format: FileFormat::UNIX })
    );
    assert!(buf.saved);
}

#[test]
fn text_is_the_lines_joined() {
    let buf = Buffer::from_content("a\nb\n\nc", "t");
    assert_eq!(buf.text(), "a\nb\n\nc");
}
