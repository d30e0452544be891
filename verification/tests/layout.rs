use smile::buffer::FileProbe;
use smile::buffer_manager::BufferManager;
use smile::error::{BufferError, LayoutError};
use smile::layout::layout_manager::{check_cursor_pos, update_scroll, LayoutManager};
use smile::layout::rect::{gap_between, is_beyond, MoveDir, Rect};
use smile::layout::tree::{remove_pane, split_current, LayoutNode, SplitDirection};

fn ids(node: &LayoutNode) -> Vec<usize> {
    match node {
        LayoutNode::Pane { id, .. } => vec![*id],
        LayoutNode::Split { first, second, .. } => {
            let mut v = ids(first);
            v.extend(ids(second));
            v
        }
    }
}

#[test]
fn split_and_remove_collapse_scenario() {
    let mut root = LayoutNode::new_pane(1, 0);
    assert!(split_current(&mut root, 1, 2, None, SplitDirection::Vertical));
    match &root {
        LayoutNode::Split { direc, ratio, first, second } => {
            assert_eq!(*direc, SplitDirection::Vertical);
            assert_eq!(*ratio, 50);
            assert!(matches!(**first, LayoutNode::Pane { id: 1, buffer_id: 0, .. }));
            assert!(matches!(**second, LayoutNode::Pane { id: 2, buffer_id: 0, .. }));
        }
        _ => panic!("expected a split"),
    }
    let rest = remove_pane(root, 2).unwrap();
    assert!(matches!(rest, LayoutNode::Pane { id: 1, .. }));
}

#[test]
fn removing_the_only_pane_leaves_nothing() {
    assert!(remove_pane(LayoutNode::new_pane(1, 0), 1).is_none());
    assert!(remove_pane(LayoutNode::new_pane(1, 0), 2).is_some());
}

#[test]
fn split_keeps_the_state_of_the_pane_and_takes_the_given_buffer() {
    let mut root = LayoutNode::Pane {
        id: 4,
        buffer_id: 9,
        cursor_pos: (3, 2),
        scroll_offset: (1, 1),
        scroll_thres: (2, 2),
    };
    assert!(!split_current(&mut root, 5, 6, None, SplitDirection::Horizontal));
    assert!(matches!(root, LayoutNode::Pane { id: 4, .. }));
    assert!(split_current(&mut root, 4, 6, Some(7), SplitDirection::Horizontal));
    match &root {
        LayoutNode::Split { first, second, .. } => {
            assert!(matches!(
                **first,
                LayoutNode::Pane {
                    id: 4,
                    buffer_id: 9,
                    cursor_pos: (3, 2),
                    scroll_offset: (1, 1),
                    scroll_thres: (2, 2)
                }
            ));
            assert!(matches!(
                **second,
                LayoutNode::Pane {
                    id: 6,
                    buffer_id: 7,
                    cursor_pos: (0, 0),
                    scroll_offset: (0, 0),
                    scroll_thres: (0, 0)
                }
            ));
        }
        _ => panic!("expected a split"),
    }
}

#[test]
fn ids_stay_unique_through_splits_and_removals() {
    let mut root = LayoutNode::new_pane(1, 0);
    assert!(split_current(&mut root, 1, 2, None, SplitDirection::Vertical));
    assert!(split_current(&mut root, 1, 3, None, SplitDirection::Horizontal));
    assert!(split_current(&mut root, 2, 4, None, SplitDirection::Horizontal));
    assert_eq!(ids(&root), vec![1, 3, 2, 4]);
    assert_eq!(root.first_pane_id(), 1);
    assert_eq!(root.get_buffer_id(4), Some(0));
    assert_eq!(root.get_buffer_id(5), None);
    assert!(root.get_pane(3).is_some());
    assert!(root.get_pane(9).is_none());
    if let Some(LayoutNode::Pane { cursor_pos, .. }) = root.get_pane_mut(2) {
        *cursor_pos = (5, 6);
    }
    assert!(matches!(root.get_pane(2), Some(LayoutNode::Pane { cursor_pos: (5, 6), .. })));
    let root = remove_pane(root, 1).unwrap();
    assert_eq!(ids(&root), vec![3, 2, 4]);
    assert_eq!(root.first_pane_id(), 3);
    let root = remove_pane(root, 2).unwrap();
    assert_eq!(ids(&root), vec![3, 4]);
    let root = remove_pane(root, 7).unwrap();
    assert_eq!(ids(&root), vec![3, 4]);
    let root = remove_pane(root, 4).unwrap();
    assert_eq!(ids(&root), vec![3]);
    assert!(remove_pane(root, 3).is_none());
}

fn two_panes_side_by_side() -> LayoutManager {
    let mut lm = LayoutManager::new();
    lm.init(0);
    let b = lm.split(1, None, SplitDirection::Vertical).ok().unwrap();
    assert_eq!(b, 2);
    assert!(lm.set_pane_rect(1, Rect::new(0, 0, 40, 20)));
    assert!(lm.set_pane_rect(2, Rect::new(40, 0, 40, 20)));
    lm
}

#[test]
fn focus_moves_to_the_adjacent_pane() {
    let mut lm = two_panes_side_by_side();
    assert_eq!(lm.current_layout, 2);
    assert_eq!(lm.move_focus(MoveDir::Right), None);
    assert_eq!(lm.current_layout, 2);
    assert_eq!(lm.move_focus(MoveDir::Left), Some(1));
    assert_eq!(lm.current_layout, 1);
    assert_eq!(lm.move_focus(MoveDir::Left), None);
    assert_eq!(lm.move_focus(MoveDir::Up), None);
    assert_eq!(lm.move_focus(MoveDir::Down), None);
    assert_eq!(lm.current_layout, 1);
    assert_eq!(lm.move_focus(MoveDir::Right), Some(2));
    assert_eq!(lm.current_layout, 2);
}

#[test]
fn focus_takes_the_nearest_pane_and_the_smallest_id_on_a_tie() {
    let mut lm = LayoutManager::new();
    lm.init(0);
    for target in [1usize, 1, 1, 1] {
        lm.split(target, None, SplitDirection::Vertical).ok().unwrap();
    }
    lm.set_pane_rect(1, Rect::new(0, 0, 10, 10));
    lm.set_pane_rect(2, Rect::new(30, 0, 10, 10));
    lm.set_pane_rect(3, Rect::new(20, 5, 10, 10));
    lm.set_pane_rect(4, Rect::new(20, 0, 10, 5));
    lm.set_pane_rect(5, Rect::new(10, 10, 10, 10));
    lm.current_layout = 1;
    // 5 is nearest to the right but shares no row; 3 and 4 are equally near.
    assert_eq!(lm.move_focus(MoveDir::Right), Some(3));
    lm.current_layout = 2;
    assert_eq!(lm.move_focus(MoveDir::Left), Some(3));
    lm.current_layout = 1;
    assert_eq!(lm.move_focus(MoveDir::Down), None);
    lm.current_layout = 5;
    assert_eq!(lm.move_focus(MoveDir::Up), None);
    assert_eq!(lm.move_focus(MoveDir::Right), Some(3));
}

#[test]
fn focus_stays_without_a_rectangle_for_the_focused_pane() {
    let mut lm = LayoutManager::new();
    lm.init(0);
    lm.split(1, None, SplitDirection::Horizontal).ok().unwrap();
    lm.set_pane_rect(1, Rect::new(0, 0, 10, 10));
    assert_eq!(lm.move_focus(MoveDir::Up), None);
    assert_eq!(lm.current_layout, 2);
    assert!(lm.get_current_rect().is_none());
    assert!(lm.contain_id(1));
    assert!(!lm.contain_id(2));
    assert!(!lm.set_pane_rect(9, Rect::new(0, 0, 1, 1)));
}

#[test]
fn geometry_of_rectangles() {
    let a = Rect::new(0, 0, 40, 20);
    let b = Rect::new(40, 0, 40, 20);
    assert_eq!(a.right(), 40);
    assert_eq!(a.bottom(), 20);
    assert!(is_beyond(MoveDir::Right, &a, &b));
    assert!(!is_beyond(MoveDir::Left, &a, &b));
    assert!(is_beyond(MoveDir::Left, &b, &a));
    assert_eq!(gap_between(MoveDir::Right, &a, &b), 0);
    let c = Rect::new(50, 19, 5, 5);
    assert!(is_beyond(MoveDir::Right, &a, &c));
    assert_eq!(gap_between(MoveDir::Right, &a, &c), 10);
    let d = Rect::new(50, 20, 5, 5);
    assert!(!is_beyond(MoveDir::Right, &a, &d));
    let far = Rect::new(65535, 65535, 65535, 65535);
    assert_eq!(far.right(), 131070);
    assert!(is_beyond(MoveDir::Down, &a, &Rect::new(39, 20, 1, 1)));
    assert!(is_beyond(MoveDir::Up, &Rect::new(0, 30, 5, 5), &Rect::new(4, 0, 9, 30)));
}

#[test]
fn manager_split_and_remove_follow_the_focus() {
    let mut lm = LayoutManager::new();
    assert!(matches!(lm.split(1, None, SplitDirection::Vertical), Err(LayoutError::NoNode)));
    assert!(matches!(lm.remove(1), Err(LayoutError::NoNode)));
    assert!(lm.get_current_pane().is_none());
    lm.init(3);
    assert_eq!(lm.current_layout, 1);
    assert!(matches!(lm.split(8, None, SplitDirection::Vertical), Err(LayoutError::IdNotFound)));
    assert_eq!(lm.split(1, Some(5), SplitDirection::Vertical).ok(), Some(2));
    assert_eq!(lm.current_layout, 2);
    assert!(matches!(lm.get_current_pane(), Some(LayoutNode::Pane { id: 2, buffer_id: 5, .. })));
    assert_eq!(lm.split(2, None, SplitDirection::Horizontal).ok(), Some(3));
    assert_eq!(ids(lm.panes.as_ref().unwrap()), vec![1, 2, 3]);
    lm.set_pane_rect(3, Rect::new(0, 0, 1, 1));
    assert!(matches!(lm.remove(9), Err(LayoutError::IdNotFound)));
    assert_eq!(lm.remove(3).ok(), Some(Some(3)));
    assert!(!lm.contain_id(3));
    assert_eq!(lm.current_layout, 1);
    assert_eq!(lm.remove(2).ok(), Some(Some(2)));
    assert_eq!(lm.current_layout, 1);
    assert!(matches!(lm.panes, Some(LayoutNode::Pane { id: 1, .. })));
    assert_eq!(lm.remove(1).ok(), Some(Some(1)));
    assert!(lm.panes.is_none());
    assert_eq!(lm.current_layout, 0);
    lm.init(0);
    assert_eq!(lm.current_layout, 4);
}

fn editor(text: &str) -> (BufferManager, LayoutManager) {
    let mut bm = BufferManager::new();
    let probe = FileProbe::Loaded { text: text.to_string(), size: 0, read_only: false };
    let id = bm.open_file("f", "f", probe).ok().unwrap();
    let mut lm = LayoutManager::new();
    lm.init(id);
    (bm, lm)
}

fn cursor(lm: &LayoutManager) -> (usize, usize) {
    match lm.get_current_pane() {
        Some(LayoutNode::Pane { cursor_pos, .. }) => cursor_pos,
        _ => panic!("no pane"),
    }
}

#[test]
fn pane_cursor_moves_within_the_buffer() {
    let (mut bm, mut lm) = editor("ab\nc\n");
    lm.mv_cursor_right(&mut bm).unwrap();
    lm.mv_cursor_right(&mut bm).unwrap();
    assert_eq!(cursor(&lm), (2, 0));
    lm.mv_cursor_right(&mut bm).unwrap();
    assert_eq!(cursor(&lm), (2, 0));
    lm.mv_cursor_down(&mut bm).unwrap();
    assert_eq!(cursor(&lm), (1, 1));
    lm.mv_cursor_down(&mut bm).unwrap();
    assert_eq!(cursor(&lm), (1, 1));
    assert_eq!(bm.get_buffer(0).ok().unwrap().content.len(), 2);
    lm.mv_cursor_head().unwrap();
    assert_eq!(cursor(&lm), (0, 1));
    lm.mv_cursor_left(&mut bm).unwrap();
    assert_eq!(cursor(&lm), (0, 1));
    lm.mv_cursor_up(&mut bm).unwrap();
    assert_eq!(cursor(&lm), (0, 0));
    lm.mv_cursor_tail(&mut bm).unwrap();
    assert_eq!(cursor(&lm), (2, 0));
}

#[test]
fn pane_moves_take_the_column_to_the_destination_line() {
    let (mut bm, mut lm) = editor("abcdef\nab\nabcd");
    lm.set_cursor((5, 1));
    lm.mv_cursor_up(&mut bm).unwrap();
    assert_eq!(cursor(&lm), (5, 0));
    lm.set_cursor((5, 1));
    lm.mv_cursor_down(&mut bm).unwrap();
    assert_eq!(cursor(&lm), (4, 2));
    lm.set_cursor((9, 0));
    lm.mv_cursor_up(&mut bm).unwrap();
    assert_eq!(cursor(&lm), (9, 0));
    lm.set_cursor((9, 2));
    lm.mv_cursor_down(&mut bm).unwrap();
    assert_eq!(cursor(&lm), (9, 2));
    lm.set_cursor((5, 1));
    lm.mv_cursor_right(&mut bm).unwrap();
    assert_eq!(cursor(&lm), (5, 1));
    lm.mv_cursor_left(&mut bm).unwrap();
    assert_eq!(cursor(&lm), (4, 1));
    lm.set_cursor((1, 7));
    lm.mv_cursor_up(&mut bm).unwrap();
    assert_eq!(cursor(&lm), (1, 1));
}

#[test]
fn view_update_keeps_the_far_margin_in_a_small_view() {
    let (bm, _lm) = editor("0\n1\n2\n3\n4\n5\n6\n7");
    let mut c = (0usize, 5usize);
    let mut off = (0usize, 4usize);
    let mut thres = (0usize, 2usize);
    update_scroll(&bm, 3, 20, &mut c, &mut off, &mut thres, 0).unwrap();
    assert_eq!((c, off, thres), ((0, 5), (0, 5), (0, 2)));
    let mut off = (0usize, 3usize);
    update_scroll(&bm, 5, 20, &mut c, &mut off, &mut thres, 0).unwrap();
    assert_eq!(off, (0, 3));
}

#[test]
fn free_mode_wraps_and_opens_lines() {
    let (mut bm, mut lm) = editor("ab\nc");
    lm.free_mode = true;
    lm.mv_cursor_tail(&mut bm).unwrap();
    lm.mv_cursor_right(&mut bm).unwrap();
    assert_eq!(cursor(&lm), (0, 1));
    lm.mv_cursor_left(&mut bm).unwrap();
    assert_eq!(cursor(&lm), (2, 0));
    lm.mv_cursor_down(&mut bm).unwrap();
    lm.mv_cursor_down(&mut bm).unwrap();
    assert_eq!(cursor(&lm), (0, 2));
    let buf = bm.get_buffer(0).ok().unwrap();
    assert_eq!(buf.content, vec!["ab".to_string(), "c".to_string(), String::new()]);
    assert!(!buf.saved);
}

#[test]
fn pane_enter_and_backspace_edit_the_buffer() {
    let (mut bm, mut lm) = editor("abc");
    lm.mv_cursor_right(&mut bm).unwrap();
    lm.handle_enter(&mut bm).unwrap();
    assert_eq!(cursor(&lm), (0, 1));
    assert_eq!(bm.get_buffer(0).ok().unwrap().content, vec!["a".to_string(), "bc".to_string()]);
    lm.handle_backspace(&mut bm).unwrap();
    assert_eq!(cursor(&lm), (1, 0));
    assert_eq!(bm.get_buffer(0).ok().unwrap().content, vec!["abc".to_string()]);
    lm.handle_backspace(&mut bm).unwrap();
    assert_eq!(cursor(&lm), (0, 0));
    assert_eq!(bm.get_buffer(0).ok().unwrap().content, vec!["bc".to_string()]);
    lm.handle_backspace(&mut bm).unwrap();
    assert_eq!(bm.get_buffer(0).ok().unwrap().content, vec!["bc".to_string()]);
    assert_eq!(bm.get_buffer(0).ok().unwrap().history.len(), 4);
}

#[test]
fn cursor_is_pulled_back_after_the_buffer_shrinks() {
    let (mut bm, mut lm) = editor("abc\ndef");
    lm.mv_cursor_down(&mut bm).unwrap();
    lm.mv_cursor_tail(&mut bm).unwrap();
    assert_eq!(cursor(&lm), (3, 1));
    bm.get_buffer_mut(0).ok().unwrap().delete_line(1).unwrap();
    bm.get_buffer_mut(0).ok().unwrap().delete(2, (0, 0)).unwrap();
    lm.check_cursor_bounds(&bm).unwrap();
    assert_eq!(cursor(&lm), (1, 0));
}

#[test]
fn operations_without_pane_or_buffer_fail() {
    let mut bm = BufferManager::new();
    let mut lm = LayoutManager::new();
    assert!(matches!(lm.mv_cursor_right(&mut bm), Err(LayoutError::PaneNotFound)));
    assert!(matches!(lm.handle_enter(&mut bm), Err(LayoutError::PaneNotFound)));
    assert!(matches!(lm.mv_cursor_head(), Err(LayoutError::PaneNotFound)));
    assert!(matches!(lm.change_current_buffer_id(1), Err(LayoutError::PaneNotFound)));
    assert!(matches!(lm.get_current_buffer(&bm), Err(LayoutError::PaneNotFound)));
    lm.init(42);
    assert!(matches!(
        lm.mv_cursor_left(&mut bm),
        Err(LayoutError::BufferErr(BufferError::InvalidId))
    ));
    assert!(matches!(
        lm.handle_backspace(&mut bm),
        Err(LayoutError::BufferErr(BufferError::InvalidId))
    ));
    assert!(matches!(
        lm.get_current_buffer_mut(&mut bm),
        Err(LayoutError::BufferErr(BufferError::InvalidId))
    ));
    let id = bm.add_new_buffer("x");
    lm.change_current_buffer_id(id).unwrap();
    assert_eq!(lm.get_current_buffer(&bm).ok().unwrap().name, "x");
    lm.get_current_buffer_mut(&mut bm).ok().unwrap().insert("q", (0, 0)).unwrap();
    assert_eq!(bm.get_buffer(id).ok().unwrap().content[0], "q");
}

#[test]
fn free_functions_update_a_view() {
    let (bm, _lm) = editor("0\n1\n2\n3\n4\n5\n6\n7");
    let mut c = (9usize, 30usize);
    check_cursor_pos(&bm, &mut c, 0).unwrap();
    assert_eq!(c, (1, 7));
    let mut c = (0usize, 6usize);
    let mut off = (0usize, 0usize);
    let mut thres = (0usize, 1usize);
    update_scroll(&bm, 4, 20, &mut c, &mut off, &mut thres, 0).unwrap();
    assert_eq!(off, (0, 4));
    assert_eq!(thres, (0, 1));
    assert!(matches!(
        update_scroll(&bm, 4, 20, &mut c, &mut off, &mut thres, 5),
        Err(LayoutError::BufferErr(BufferError::InvalidId))
    ));
    assert!(matches!(
        check_cursor_pos(&bm, &mut c, 5),
        Err(LayoutError::BufferErr(BufferError::InvalidId))
    ));
}
