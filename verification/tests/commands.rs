use smile::buffer::FileProbe;
use smile::buffer_manager::BufferManager;
use smile::command::{
    add_content_at, change_pane, close_current_pane, create_new_buffer, delete_before_cursor,
    delete_line, delete_selection, handle_backspace, handle_enter, handle_instructions,
    insert_lines, is_buffer_binding, move_focus_in_pane, mv_cursor_down, mv_cursor_head,
    mv_cursor_left, mv_cursor_right, mv_cursor_tail, mv_cursor_up, redo, revoke, save, split,
    Instruction,
};
use smile::command_text::{is_space, parse_command, str_eq, trim_text, Command};
use smile::editor::App;
use smile::error::{BufferError, LayoutError};
use smile::kaoco::{get_kaomoji, kaomoji_to_text, CmdStatus, ExCmd, KaoCo, KaoMoJi};
use smile::layout::layout_manager::LayoutManager;
use smile::layout::rect::{MoveDir, Rect};
use smile::layout::tree::{LayoutNode, SplitDirection};
use smile::screen::{Mod, Screen};

fn editor(text: &str) -> (BufferManager, LayoutManager) {
    let mut bm = BufferManager::new();
    let probe = FileProbe::Loaded { text: text.to_string(), size: 0, read_only: false };
    let id = bm.open_file("/tmp/f.txt", "f.txt", probe).ok().unwrap();
    let mut lm = LayoutManager::new();
    lm.init(id);
    (bm, lm)
}

fn cursor(lm: &LayoutManager) -> (usize, usize) {
    match lm.get_current_pane() {
        Some(LayoutNode::Pane { cursor_pos, .. }) => cursor_pos,
        _ => panic!("no pane"),
    }
}

fn text(bm: &BufferManager, id: usize) -> String {
    bm.get_buffer(id).ok().unwrap().text()
}

#[test]
fn typing_and_undoing_through_the_commands() {
    let (mut bm, mut lm) = editor("abc");
    lm.set_cursor((1, 0));
    add_content_at(&mut bm, &mut lm, "XY").unwrap();
    assert_eq!(text(&bm, 0), "aXYbc");
    assert_eq!(cursor(&lm), (1, 0));
    lm.set_cursor((5, 0));
    revoke(&mut bm, &mut lm).unwrap();
    assert_eq!(text(&bm, 0), "abc");
    assert_eq!(cursor(&lm), (3, 0));
    redo(&mut bm, &mut lm).unwrap();
    assert_eq!(text(&bm, 0), "aXYbc");
    lm.set_cursor((0, 4));
    assert!(matches!(
        add_content_at(&mut bm, &mut lm, "q"),
        Err(LayoutError::BufferErr(BufferError::InvalidPosition))
    ));
    assert_eq!(text(&bm, 0), "aXYbc");
}

#[test]
fn commands_fail_without_a_pane() {
    let mut bm = BufferManager::new();
    let mut lm = LayoutManager::new();
    let mut screen = Screen::Editor;
    assert!(matches!(add_content_at(&mut bm, &mut lm, "x"), Err(LayoutError::PaneNotFound)));
    assert!(matches!(revoke(&mut bm, &mut lm), Err(LayoutError::PaneNotFound)));
    assert!(matches!(redo(&mut bm, &mut lm), Err(LayoutError::PaneNotFound)));
    assert!(matches!(save(&bm, &lm), Err(LayoutError::PaneNotFound)));
    assert!(matches!(is_buffer_binding(&bm, &lm), Err(LayoutError::PaneNotFound)));
    assert!(matches!(
        split(&bm, &mut lm, SplitDirection::Vertical, None),
        Err(LayoutError::PaneNotFound)
    ));
    assert!(matches!(close_current_pane(&mut lm, &mut screen), Err(LayoutError::PaneNotFound)));
    assert!(matches!(delete_line(&mut bm, &mut lm), Err(LayoutError::PaneNotFound)));
    assert!(matches!(delete_selection(&mut bm, &mut lm, (0, 0)), Err(LayoutError::PaneNotFound)));
    assert!(matches!(delete_before_cursor(&mut bm, &mut lm, 1), Err(LayoutError::PaneNotFound)));
    assert!(matches!(insert_lines(&mut bm, &mut lm, &vec![]), Err(LayoutError::PaneNotFound)));
    assert_eq!(move_focus_in_pane(&mut lm, MoveDir::Left), None);
    assert!(matches!(change_pane(&mut lm, 1), Err(LayoutError::IdNotFound)));
    assert_eq!(screen, Screen::Editor);
}

#[test]
fn save_tells_what_to_write() {
    let (mut bm, mut lm) = editor("a\nb");
    assert_eq!(is_buffer_binding(&bm, &lm).ok(), Some(true));
    let req = save(&bm, &lm).ok().unwrap();
    assert_eq!((req.path.as_str(), req.text.as_str()), ("/tmp/f.txt", "a\nb"));
    let id = create_new_buffer(&mut bm, &mut lm, "Untitled");
    assert_eq!(id, 1);
    assert!(matches!(lm.get_current_pane(), Some(LayoutNode::Pane { buffer_id: 1, .. })));
    assert_eq!(is_buffer_binding(&bm, &lm).ok(), Some(false));
    assert!(matches!(save(&bm, &lm), Err(LayoutError::BufferErr(BufferError::InvalidPath))));
}

#[test]
fn splitting_closing_and_choosing_panes() {
    let (bm, mut lm) = editor("x");
    let mut screen = Screen::Editor;
    assert!(matches!(
        split(&bm, &mut lm, SplitDirection::Vertical, Some(9)),
        Err(LayoutError::BufferErr(BufferError::InvalidId))
    ));
    split(&bm, &mut lm, SplitDirection::Vertical, Some(0)).unwrap();
    assert_eq!(lm.current_layout, 2);
    assert!(matches!(change_pane(&mut lm, 1), Err(LayoutError::IdNotFound)));
    lm.set_pane_rect(1, Rect::new(0, 0, 10, 10));
    lm.set_pane_rect(2, Rect::new(10, 0, 10, 10));
    change_pane(&mut lm, 1).unwrap();
    assert_eq!(lm.current_layout, 1);
    assert_eq!(move_focus_in_pane(&mut lm, MoveDir::Right), Some(2));
    close_current_pane(&mut lm, &mut screen).unwrap();
    assert_eq!(lm.current_layout, 1);
    assert_eq!(screen, Screen::Editor);
    close_current_pane(&mut lm, &mut screen).unwrap();
    assert!(lm.panes.is_none());
    assert_eq!(screen, Screen::Welcome);
}

#[test]
fn deleting_before_the_cursor() {
    let (mut bm, mut lm) = editor("abcdef\ngh");
    lm.set_cursor((4, 0));
    delete_before_cursor(&mut bm, &mut lm, 3).unwrap();
    assert_eq!(text(&bm, 0), "aef\ngh");
    assert_eq!(cursor(&lm), (1, 0));
    assert!(matches!(
        delete_before_cursor(&mut bm, &mut lm, 2),
        Err(LayoutError::BufferErr(BufferError::InvalidPosition))
    ));
    lm.set_cursor((0, 1));
    delete_before_cursor(&mut bm, &mut lm, 5).unwrap();
    assert_eq!(text(&bm, 0), "aefgh");
    assert_eq!(cursor(&lm), (3, 0));
    lm.set_cursor((0, 0));
    delete_before_cursor(&mut bm, &mut lm, 1).unwrap();
    assert_eq!(text(&bm, 0), "aefgh");
}

#[test]
fn deleting_lines_and_selections() {
    let (mut bm, mut lm) = editor("one\ntwo\nthree");
    lm.set_cursor((2, 1));
    assert_eq!(delete_line(&mut bm, &mut lm).ok().unwrap(), "two");
    assert_eq!(text(&bm, 0), "one\nthree");
    assert_eq!(cursor(&lm), (0, 1));
    assert_eq!(delete_line(&mut bm, &mut lm).ok().unwrap(), "three");
    assert_eq!(cursor(&lm), (0, 0));
    assert_eq!(delete_line(&mut bm, &mut lm).ok().unwrap(), "one");
    assert_eq!(text(&bm, 0), "");
    assert_eq!(cursor(&lm), (0, 0));

    let (mut bm, mut lm) = editor("one\ntwo\nthree");
    lm.set_cursor((2, 2));
    assert_eq!(delete_selection(&mut bm, &mut lm, (1, 0)).ok().unwrap(), "ne\ntwo\nth");
    assert_eq!(text(&bm, 0), "oree");
    assert_eq!(cursor(&lm), (1, 0));
    assert_eq!(delete_selection(&mut bm, &mut lm, (3, 0)).ok().unwrap(), "re");
    assert_eq!(text(&bm, 0), "oe");
    assert_eq!(cursor(&lm), (1, 0));
    assert_eq!(delete_selection(&mut bm, &mut lm, (9, 9)).ok().unwrap(), "e");
    assert_eq!(text(&bm, 0), "o");
}

#[test]
fn instructions_are_carried_out() {
    let (mut bm, mut lm) = editor("abc");
    lm.set_cursor((3, 0));
    handle_instructions(&mut bm, &mut lm, &Instruction::InsertText("d".to_string())).unwrap();
    assert_eq!(text(&bm, 0), "abcd");
    handle_instructions(&mut bm, &mut lm, &Instruction::DeleteText(1)).unwrap();
    assert_eq!(text(&bm, 0), "abd");
    assert_eq!(cursor(&lm), (2, 0));
    handle_instructions(&mut bm, &mut lm, &Instruction::InsertLine).unwrap();
    assert_eq!(text(&bm, 0), "ab\nd");
    assert_eq!(cursor(&lm), (0, 1));
    let block = vec!["x".to_string(), "y".to_string()];
    handle_instructions(&mut bm, &mut lm, &Instruction::InsertBlock(block)).unwrap();
    assert_eq!(text(&bm, 0), "ab\nx\nyd");
    handle_instructions(&mut bm, &mut lm, &Instruction::DeleteBlock((1, 0))).unwrap();
    assert_eq!(text(&bm, 0), "ax\nyd");
    assert_eq!(cursor(&lm), (1, 0));
    handle_instructions(&mut bm, &mut lm, &Instruction::DeleteLine).unwrap();
    assert_eq!(text(&bm, 0), "yd");
    lm.set_cursor((0, 5));
    assert!(matches!(
        handle_instructions(&mut bm, &mut lm, &Instruction::InsertText("q".to_string())),
        Err(LayoutError::BufferErr(BufferError::InvalidPosition))
    ));
}

#[test]
fn trimming_and_parsing() {
    assert_eq!(trim_text("  save \t\n"), "save");
    assert_eq!(trim_text("new  buffer"), "new  buffer");
    assert_eq!(trim_text("\u{3000}x\u{a0}"), "x");
    assert_eq!(trim_text("   "), "");
    assert_eq!(trim_text(""), "");
    assert!(str_eq("ab", "ab"));
    assert!(!str_eq("ab", "abc"));
    assert_eq!(parse_command(""), Command::Empty);
    assert_eq!(parse_command("   "), Command::Empty);
    assert_eq!(parse_command(" revoke "), Command::Revoke);
    assert_eq!(parse_command("redo"), Command::Redo);
    assert_eq!(parse_command("head"), Command::Head);
    assert_eq!(parse_command("tail"), Command::Tail);
    assert_eq!(parse_command("save"), Command::Save);
    assert_eq!(parse_command("new buffer"), Command::NewBuffer);
    assert_eq!(parse_command("sv"), Command::SplitVertical);
    assert_eq!(parse_command("sh"), Command::SplitHorizontal);
    assert_eq!(parse_command("close"), Command::Close);
    assert_eq!(parse_command("right pane"), Command::RightPane);
    assert_eq!(parse_command("left pane"), Command::LeftPane);
    assert_eq!(parse_command("up pane"), Command::UpPane);
    assert_eq!(parse_command("down pane"), Command::DownPane);
    assert_eq!(parse_command("change name"), Command::ChangeName);
    assert_eq!(parse_command("\tchange pane\n"), Command::ChangePane);
    assert_eq!(parse_command("Save"), Command::Unknown);
    assert_eq!(parse_command("new  buffer"), Command::Unknown);
}

#[test]
fn the_command_bar_edits_its_line() {
    let mut bar = KaoCo::new();
    assert_eq!(bar.status, CmdStatus::Normal);
    bar.add_content_at("sve").unwrap();
    bar.mv_cursor_right();
    bar.add_content_at("a").unwrap();
    assert_eq!(bar.content, "save");
    for _ in 0..9 {
        bar.mv_cursor_right();
    }
    assert_eq!(bar.cursor_pos, (4, 0));
    bar.handle_backspace();
    assert_eq!(bar.content, "sav");
    assert_eq!(bar.cursor_pos, (3, 0));
    bar.mv_cursor_left();
    bar.mv_cursor_left();
    bar.change_content_at(2, "ILE").unwrap();
    assert_eq!(bar.content, "sILE");
    bar.delete_content_at(1).unwrap();
    assert_eq!(bar.content, "sLE");
    assert!(matches!(bar.delete_content_at(3), Err(BufferError::InvalidPosition)));
    assert!(matches!(bar.change_content_at(3, "x"), Err(BufferError::InvalidPosition)));
    bar.cursor_pos = (9, 0);
    assert!(matches!(bar.add_content_at("x"), Err(BufferError::InvalidPosition)));
    bar.handle_backspace();
    assert_eq!(bar.content, "sLE");
    bar.cursor_pos = (0, 0);
    bar.handle_backspace();
    bar.mv_cursor_left();
    assert_eq!((bar.content.as_str(), bar.cursor_pos), ("sLE", (0, 0)));
    assert_eq!(bar.get_visual_width_upto(2), 2);
    assert_eq!(bar.checked_visual_width_upto(9), Some(3));
    bar.update_scroll(2);
    assert_eq!(bar.scroll_offset, (2, 0));
    bar.say = "hello".to_string();
    bar.clean();
    assert_eq!((bar.content.as_str(), bar.say.as_str()), ("", "hello"));
    assert_eq!(bar.scroll_offset, (0, 0));
    bar.clean_all();
    assert_eq!(bar.say, "");
    bar.ask_and_save();
    assert_eq!(bar.status, CmdStatus::Exec(ExCmd::AskAndSave));
    assert_eq!(bar.say, "Input the file's name");
}

#[test]
fn faces_have_their_text() {
    assert_eq!(kaomoji_to_text(KaoMoJi::Wink), "☆(>ᴗ•)");
    assert_eq!(kaomoji_to_text(KaoMoJi::Angry), "(`ᴖ´)");
    assert_eq!(kaomoji_to_text(KaoMoJi::Sleep), "(ᴗ˳ᴗ)ᶻ𝗓𐰁");
    assert_eq!(kaomoji_to_text(KaoMoJi::Happy), "(>ᴗ<)");
    assert_eq!(kaomoji_to_text(KaoMoJi::Smile), "(•ᴗ•)");
    assert_eq!(get_kaomoji(KaoMoJi::Wink), "☆(>ᴗ•)");
    assert_eq!(get_kaomoji(KaoMoJi::Angry), "(`ᴖ´)");
    assert_eq!(get_kaomoji(KaoMoJi::Sleep), "(ᴗ˳ᴗ)ᶻ𝗓𐰁");
    assert_eq!(get_kaomoji(KaoMoJi::Happy), ">ᴗ<");
    assert_eq!(get_kaomoji(KaoMoJi::Smile), ">ᴗ<");
}

fn run(bar: &mut KaoCo, bm: &mut BufferManager, lm: &mut LayoutManager, input: &str) -> bool {
    let mut screen = Screen::Command;
    bar.content = input.to_string();
    let res = bar.handle_command(bm, lm, &mut screen).ok().unwrap();
    assert!(res.save.is_none());
    res.leave
}

#[test]
fn handled_commands_change_the_editor() {
    let (mut bm, mut lm) = editor("abc\nde");
    let mut bar = KaoCo::new();
    assert!(!run(&mut bar, &mut bm, &mut lm, "  "));
    assert_eq!(bar.status, CmdStatus::Normal);
    assert!(!run(&mut bar, &mut bm, &mut lm, "fly"));
    assert_eq!(bar.status, CmdStatus::Failed);
    assert_eq!(bar.say, "Unknown command");
    assert!(run(&mut bar, &mut bm, &mut lm, "tail"));
    assert_eq!(bar.status, CmdStatus::Success);
    assert_eq!(cursor(&lm), (3, 0));
    assert!(run(&mut bar, &mut bm, &mut lm, "head"));
    assert_eq!(cursor(&lm), (0, 0));
    bm.get_buffer_mut(0).ok().unwrap().insert("!", (0, 0)).unwrap();
    assert!(run(&mut bar, &mut bm, &mut lm, "revoke"));
    assert_eq!(text(&bm, 0), "abc\nde");
    assert!(run(&mut bar, &mut bm, &mut lm, "redo"));
    assert_eq!(text(&bm, 0), "!abc\nde");
    assert!(run(&mut bar, &mut bm, &mut lm, "new buffer"));
    assert_eq!(bm.get_buffer(1).ok().unwrap().name, "Untitled");
    assert!(run(&mut bar, &mut bm, &mut lm, "sv"));
    assert!(run(&mut bar, &mut bm, &mut lm, "sh"));
    assert_eq!(lm.current_layout, 3);
    lm.set_pane_rect(1, Rect::new(0, 0, 10, 10));
    lm.set_pane_rect(2, Rect::new(10, 0, 10, 5));
    lm.set_pane_rect(3, Rect::new(10, 5, 10, 5));
    assert!(run(&mut bar, &mut bm, &mut lm, "up pane"));
    assert_eq!(lm.current_layout, 2);
    assert!(run(&mut bar, &mut bm, &mut lm, "left pane"));
    assert_eq!(lm.current_layout, 1);
    assert!(run(&mut bar, &mut bm, &mut lm, "right pane"));
    assert_eq!(lm.current_layout, 2);
    assert!(run(&mut bar, &mut bm, &mut lm, "down pane"));
    assert_eq!(lm.current_layout, 3);
    assert!(run(&mut bar, &mut bm, &mut lm, "close"));
    assert_eq!(lm.current_layout, 2);
    assert!(!lm.contain_id(3));
}

#[test]
fn saving_through_the_command_bar() {
    let (mut bm, mut lm) = editor("a\nb");
    let mut bar = KaoCo::new();
    let mut screen = Screen::Command;
    bar.content = "save".to_string();
    let res = bar.handle_command(&mut bm, &mut lm, &mut screen).ok().unwrap();
    assert!(!res.leave);
    let req = res.save.unwrap();
    assert_eq!((req.path.as_str(), req.text.as_str()), ("/tmp/f.txt", "a\nb"));

    create_new_buffer(&mut bm, &mut lm, "Untitled");
    let res = bar.handle_command(&mut bm, &mut lm, &mut screen).ok().unwrap();
    assert!(!res.leave);
    assert!(res.save.is_none());
    assert_eq!(bar.status, CmdStatus::Exec(ExCmd::AskAndSave));
    bar.content = " notes.txt ".to_string();
    let res = bar.handle_command(&mut bm, &mut lm, &mut screen).ok().unwrap();
    assert!(res.leave);
    let req = res.save.unwrap();
    assert_eq!((req.path.as_str(), req.text.as_str()), ("notes.txt", ""));
    assert_eq!(bm.get_buffer(1).ok().unwrap().name, "notes.txt");
    assert_eq!(bar.status, CmdStatus::Success);
    assert_eq!(bar.say, "");

    let mut empty = LayoutManager::new();
    assert!(matches!(
        bar.handle_command(&mut bm, &mut empty, &mut screen),
        Err(LayoutError::PaneNotFound)
    ));
}

#[test]
fn closing_the_last_pane_shows_the_welcome_screen() {
    let (mut bm, mut lm) = editor("x");
    let mut bar = KaoCo::new();
    let mut screen = Screen::Command;
    bar.content = "close".to_string();
    let res = bar.handle_command(&mut bm, &mut lm, &mut screen).ok().unwrap();
    assert!(res.leave);
    assert_eq!(screen, Screen::Welcome);
    assert!(lm.panes.is_none());
}

#[test]
fn the_editor_types_and_moves() {
    let mut app = App::new();
    assert_eq!(app.current_screen, Screen::Welcome);
    assert_eq!(app.current_mod, Mod::Input);
    app.mv_cursor_right();
    app.handle_enter();
    app.handle_backspace();
    assert!(matches!(app.insert_char('x'), Err(LayoutError::PaneNotFound)));
    app.init("Untitled");
    assert_eq!(app.current_screen, Screen::Editor);
    for ch in "héllo".chars() {
        app.insert_char(ch).unwrap();
    }
    assert_eq!(text(&app.buf_manager, 0), "héllo");
    assert_eq!(cursor(&app.layout_manager), (5, 0));
    app.insert_char('\u{301}').unwrap();
    assert_eq!(cursor(&app.layout_manager), (5, 0));
    app.mv_cursor_left();
    app.mv_cursor_left();
    app.handle_enter();
    assert_eq!(text(&app.buf_manager, 0), "hél\nlo\u{301}");
    assert_eq!(cursor(&app.layout_manager), (0, 1));
    app.mv_cursor_up();
    assert_eq!(cursor(&app.layout_manager), (0, 0));
    app.mv_cursor_down();
    app.mv_cursor_right();
    app.handle_backspace();
    assert_eq!(text(&app.buf_manager, 0), "hél\no\u{301}");
    app.mv_cursor_down();
    assert_eq!(cursor(&app.layout_manager), (0, 1));
    assert!(!app.should_exit);
}

#[test]
fn the_editor_opens_files() {
    let mut app = App::new();
    assert!(matches!(
        app.init_from_file("d", "d", FileProbe::NotAFile),
        Err(BufferError::NotAFile)
    ));
    assert_eq!(app.current_screen, Screen::Welcome);
    let probe = FileProbe::Loaded { text: "a\nb\n".to_string(), size: 4, read_only: false };
    app.init_from_file("/x/y.txt", "y.txt", probe).unwrap();
    assert_eq!(app.current_screen, Screen::Editor);
    assert_eq!(text(&app.buf_manager, 0), "a\nb");
    assert_eq!(app.layout_manager.current_layout, 1);
}

#[test]
fn white_space_is_what_the_standard_library_takes_for_it() {
    for u in 0..=0x10FFFFu32 {
        if let Some(c) = char::from_u32(u) {
            assert_eq!(is_space(c), c.is_whitespace(), "U+{:04X}", u);
        }
    }
    assert!(is_space(' ') && is_space('\t') && is_space('\u{3000}') && is_space('\u{85}'));
    assert!(!is_space('a') && !is_space('\u{200B}') && !is_space('\u{180E}'));
}

#[test]
fn the_command_functions_move_and_edit_like_the_layout_manager() {
    let (mut bm, mut lm) = editor("abcdef\nab\nabcd");
    mv_cursor_tail(&mut bm, &mut lm).unwrap();
    assert_eq!(cursor(&lm), (6, 0));
    mv_cursor_down(&mut bm, &mut lm).unwrap();
    assert_eq!(cursor(&lm), (2, 1));
    mv_cursor_right(&mut bm, &mut lm).unwrap();
    assert_eq!(cursor(&lm), (2, 1));
    mv_cursor_left(&mut bm, &mut lm).unwrap();
    assert_eq!(cursor(&lm), (1, 1));
    mv_cursor_up(&mut bm, &mut lm).unwrap();
    assert_eq!(cursor(&lm), (1, 0));
    handle_enter(&mut bm, &mut lm).unwrap();
    assert_eq!(text(&bm, 0), "a\nbcdef\nab\nabcd");
    assert_eq!(cursor(&lm), (0, 1));
    handle_backspace(&mut bm, &mut lm).unwrap();
    assert_eq!(text(&bm, 0), "abcdef\nab\nabcd");
    assert_eq!(cursor(&lm), (1, 0));
    handle_backspace(&mut bm, &mut lm).unwrap();
    assert_eq!(text(&bm, 0), "bcdef\nab\nabcd");
    mv_cursor_tail(&mut bm, &mut lm).unwrap();
    mv_cursor_head(&mut lm).unwrap();
    assert_eq!(cursor(&lm), (0, 0));

    let mut none = LayoutManager::new();
    assert!(matches!(mv_cursor_right(&mut bm, &mut none), Err(LayoutError::PaneNotFound)));
    assert!(matches!(mv_cursor_left(&mut bm, &mut none), Err(LayoutError::PaneNotFound)));
    assert!(matches!(mv_cursor_up(&mut bm, &mut none), Err(LayoutError::PaneNotFound)));
    assert!(matches!(mv_cursor_down(&mut bm, &mut none), Err(LayoutError::PaneNotFound)));
    assert!(matches!(mv_cursor_tail(&mut bm, &mut none), Err(LayoutError::PaneNotFound)));
    assert!(matches!(mv_cursor_head(&mut none), Err(LayoutError::PaneNotFound)));
    assert!(matches!(handle_backspace(&mut bm, &mut none), Err(LayoutError::PaneNotFound)));
    assert!(matches!(handle_enter(&mut bm, &mut none), Err(LayoutError::PaneNotFound)));
}

#[test]
fn change_name_and_change_pane_are_commands() {
    let (mut bm, mut lm) = editor("abc");
    let mut bar = KaoCo::new();
    assert!(run(&mut bar, &mut bm, &mut lm, "change name"));
    assert_eq!(bm.get_buffer(0).ok().unwrap().name, "omg");
    assert_eq!(text(&bm, 0), "abc");
    assert_eq!(bar.status, CmdStatus::Success);

    assert!(run(&mut bar, &mut bm, &mut lm, "sv"));
    assert_eq!(lm.current_layout, 2);
    let mut screen = Screen::Command;
    bar.status = CmdStatus::Normal;
    bar.content = "change pane".to_string();
    assert!(matches!(
        bar.handle_command(&mut bm, &mut lm, &mut screen),
        Err(LayoutError::IdNotFound)
    ));
    assert_eq!(lm.current_layout, 2);
    assert_eq!(bar.status, CmdStatus::Normal);
    lm.set_pane_rect(1, Rect::new(0, 0, 10, 10));
    assert!(run(&mut bar, &mut bm, &mut lm, "change pane"));
    assert_eq!(lm.current_layout, 1);
    assert_eq!(bar.status, CmdStatus::Success);
}
