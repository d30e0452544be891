use smile::buffer::{Buffer, FileProbe};
use smile::buffer_manager::BufferManager;
use smile::error::BufferError;

#[test]
fn ids_are_fresh_and_never_reused() {
    let mut bm = BufferManager::new();
    assert!(bm.get_current_buffer().is_none());
    let a = bm.add_new_buffer("a");
    let b = bm.add_buffer(Buffer::from_content("x\ny", "b"));
    assert_eq!((a, b), (0, 1));
    assert_eq!(bm.get_buffer(b).ok().unwrap().id, b);
    assert_eq!(bm.get_buffer(b).ok().unwrap().content.len(), 2);
    let removed = bm.remove_buffer(a).ok().unwrap();
    assert_eq!(removed.name, "a");
    assert!(matches!(bm.get_buffer(a), Err(BufferError::InvalidId)));
    assert!(matches!(bm.get_buffer_mut(a), Err(BufferError::InvalidId)));
    assert!(matches!(bm.remove_buffer(a), Err(BufferError::InvalidId)));
    let c = bm.add_new_buffer("c");
    assert_eq!(c, 2);
    assert_eq!(bm.find_index(b), Some(0));
    assert_eq!(bm.find_index(c), Some(1));
    assert_eq!(bm.find_index(a), None);
}

#[test]
fn open_file_takes_the_buffer_in_or_reports_the_error() {
    let mut bm = BufferManager::new();
    assert!(matches!(bm.open_file("d", "d", FileProbe::NotAFile), Err(BufferError::NotAFile)));
    let cause = std::io::Error::new(std::io::ErrorKind::Other, "bad");
    assert!(matches!(
        bm.open_file("f", "f", FileProbe::Unreadable(cause)),
        Err(BufferError::IOError(_))
    ));
    assert_eq!(bm.buffers.len(), 0);
    let probe = FileProbe::Loaded { text: "a\nb".to_string(), size: 3, read_only: false };
    let id = bm.open_file("/x/f.txt", "f.txt", probe).ok().unwrap();
    assert_eq!(id, 0);
    let buf = bm.get_buffer(id).ok().unwrap();
    assert_eq!(buf.content, vec!["a".to_string(), "b".to_string()]);
    assert!(buf.saved);
    assert_eq!(buf.name, "f.txt");
}

#[test]
fn current_buffer_goes_round() {
    let mut bm = BufferManager::new();
    bm.change_to_next();
    assert_eq!(bm.current_buffer, None);
    bm.add_new_buffer("a");
    bm.change_to_next();
    bm.change_to_prev();
    assert_eq!(bm.current_buffer, Some(0));
    bm.add_new_buffer("b");
    bm.add_new_buffer("c");
    assert_eq!(bm.current_buffer, Some(2));
    assert_eq!(bm.get_current_buffer().unwrap().name, "c");
    bm.change_to_next();
    assert_eq!(bm.current_buffer, Some(0));
    bm.change_to_prev();
    assert_eq!(bm.current_buffer, Some(2));
    bm.change_to_prev();
    assert_eq!(bm.current_buffer, Some(1));
    bm.get_current_buffer_mut().unwrap().change_name("B");
    assert_eq!(bm.get_buffer(1).ok().unwrap().name, "B");
    bm.remove_buffer(0).ok().unwrap();
    assert_eq!(bm.current_buffer, Some(0));
    assert_eq!(bm.get_current_buffer().unwrap().name, "B");
    bm.remove_buffer(1).ok().unwrap();
    assert_eq!(bm.current_buffer, None);
    assert!(bm.get_current_buffer_mut().is_none());
}

#[test]
fn changes_through_get_buffer_mut_stay() {
    let mut bm = BufferManager::new();
    let id = bm.add_new_buffer("a");
    bm.get_buffer_mut(id).ok().unwrap().insert("hello", (0, 0)).unwrap();
    assert_eq!(bm.get_buffer(id).ok().unwrap().content[0], "hello");
    bm.get_buffer_mut(id).ok().unwrap().undo();
    assert_eq!(bm.get_buffer(id).ok().unwrap().content[0], "");
}
