//! The command bar: a one-line input with a face that shows how the last
//! command went.

use crate::buffer::{Buffer, SaveRequest};
use crate::buffer_manager::{lemma_replace_keeps_wf, BufferManager};
use crate::command::{
    change_pane, close_current_pane, focused_closed, focused_split, history_stepped,
    move_focus_in_pane, redo, revoke, split,
};
use crate::command_text::{parse_command, spec_parse, trim, trim_text, Command};
use crate::cursor::{clamp_cursor, pos_int};
use crate::error::{BufferError, LayoutError};
use crate::grapheme::{
    checked_width_upto, cluster_count, insert_text, line_insert, line_remove, line_replace,
    remove_span, replace_span, visual_width, width_upto,
};
use crate::layout::layout_manager::LayoutManager;
use crate::layout::rect::MoveDir;
use crate::layout::tree::SplitDirection;
use crate::lines::join_lines;
use crate::screen::Screen;
use crate::scroll::{compute_scroll_axis, scroll_axis};
use crate::utils::get_line_len;
use vstd::prelude::*;
use vstd::string::StringExecFns;

verus! {

/// The faces of the command bar.
#[derive(Debug, Copy, Clone, PartialEq, Eq, Structural)]
pub enum KaoMoJi {
    Smile,
    Happy,
    Angry,
    Sleep,
    Wink,
}

/// A command that waits for more input.
#[derive(Debug, Copy, Clone, PartialEq, Eq, Structural)]
pub enum ExCmd {
    /// The next input is the name of the file to save to.
    AskAndSave,
}

/// How the command bar stands.
#[derive(Debug, Copy, Clone, PartialEq, Eq, Structural)]
pub enum CmdStatus {
    Normal,
    Exec(ExCmd),
    Success,
    Failed,
}

/// The command bar.
pub struct KaoCo {
    /// The face that is shown.
    pub kmj: KaoMoJi,
    /// What the bar says to the user.
    pub say: String,
    /// What the user has typed.
    pub content: String,
    /// Cursor in `content`; only the column counts.
    pub cursor_pos: (usize, usize),
    /// First visible `(column, row)`.
    pub scroll_offset: (usize, usize),
    pub status: CmdStatus,
}

/// What a handled command asks of the caller.
pub struct CommandResult {
    /// Whether to go back from the command bar to the editor.
    pub leave: bool,
    /// A file to write, if the command was a save.
    pub save: Option<SaveRequest>,
}

/// The text of a face.
pub fn kaomoji_to_text(kind: KaoMoJi) -> (r: String)
    ensures
        r@ == (match kind {
            KaoMoJi::Wink => "☆(>ᴗ•)"@,
            KaoMoJi::Angry => "(`ᴖ´)"@,
            KaoMoJi::Sleep => "(ᴗ˳ᴗ)ᶻ𝗓𐰁"@,
            KaoMoJi::Happy => "(>ᴗ<)"@,
            KaoMoJi::Smile => "(•ᴗ•)"@,
        }),
{
    let text: &str = match kind {
        KaoMoJi::Wink => "☆(>ᴗ•)",
        KaoMoJi::Angry => "(`ᴖ´)",
        KaoMoJi::Sleep => "(ᴗ˳ᴗ)ᶻ𝗓𐰁",
        KaoMoJi::Happy => "(>ᴗ<)",
        KaoMoJi::Smile => "(•ᴗ•)",
    };
    String::from_str(text)
}

/// The text of a face in its short form, in which the smiling and the
/// happy face look the same.
pub fn get_kaomoji(kind: KaoMoJi) -> (r: String)
    ensures
        r@ == (match kind {
            KaoMoJi::Wink => "☆(>ᴗ•)"@,
            KaoMoJi::Angry => "(`ᴖ´)"@,
            KaoMoJi::Sleep => "(ᴗ˳ᴗ)ᶻ𝗓𐰁"@,
            KaoMoJi::Happy => ">ᴗ<"@,
            KaoMoJi::Smile => ">ᴗ<"@,
        }),
{
    let text: &str = match kind {
        KaoMoJi::Wink => "☆(>ᴗ•)",
        KaoMoJi::Angry => "(`ᴖ´)",
        KaoMoJi::Sleep => "(ᴗ˳ᴗ)ᶻ𝗓𐰁",
        _ => ">ᴗ<",
    };
    String::from_str(text)
}

impl KaoCo {
    /// Whether `self` and `other` agree in everything but the typed text.
    pub open spec fn same_bar(&self, other: &KaoCo) -> bool {
        &&& self.kmj == other.kmj
        &&& self.say == other.say
        &&& self.cursor_pos == other.cursor_pos
        &&& self.scroll_offset == other.scroll_offset
        &&& self.status == other.status
    }

    /// An empty command bar.
    pub fn new() -> (r: Self)
        ensures
            r.kmj == KaoMoJi::Smile,
            r.say@ == Seq::<char>::empty(),
            r.content@ == Seq::<char>::empty(),
            r.cursor_pos == (0usize, 0usize),
            r.scroll_offset == (0usize, 0usize),
            r.status == CmdStatus::Normal,
    {
        Self {
            kmj: KaoMoJi::Smile,
            say: String::new(),
            content: String::new(),
            cursor_pos: (0, 0),
            scroll_offset: (0, 0),
            status: CmdStatus::Normal,
        }
    }

    /// Empties the input and puts cursor and scroll offset at the start.
    pub fn clean(&mut self)
        ensures
            final(self).content@ == Seq::<char>::empty(),
            final(self).cursor_pos == (0usize, 0usize),
            final(self).scroll_offset == (0usize, 0usize),
            final(self).kmj == old(self).kmj,
            final(self).say == old(self).say,
            final(self).status == old(self).status,
    {
        self.content = String::new();
        self.cursor_pos = (0, 0);
        self.scroll_offset = (0, 0);
    }

    /// Empties the input and the message and puts cursor and scroll
    /// offset at the start.
    pub fn clean_all(&mut self)
        ensures
            final(self).content@ == Seq::<char>::empty(),
            final(self).say@ == Seq::<char>::empty(),
            final(self).cursor_pos == (0usize, 0usize),
            final(self).scroll_offset == (0usize, 0usize),
            final(self).kmj == old(self).kmj,
            final(self).status == old(self).status,
    {
        self.content = String::new();
        self.say = String::new();
        self.cursor_pos = (0, 0);
        self.scroll_offset = (0, 0);
    }

    /// Replaces `len` clusters from the cursor on by `replace_str`.
    ///
    /// Fails with `InvalidPosition`, changing nothing, if the input has
    /// fewer than that many clusters from the cursor on.
    pub fn change_content_at(&mut self, len: usize, replace_str: &str) -> (r: Result<
        (),
        BufferError,
    >)
        ensures
            final(self).same_bar(old(self)),
            match r {
                Ok(()) => {
                    let x = old(self).cursor_pos.0;
                    &&& x + len <= cluster_count(old(self).content@)
                    &&& final(self).content@ == replace_span(
                        old(self).content@,
                        x as int,
                        len as int,
                        replace_str@,
                    )
                },
                Err(e) => {
                    &&& e is InvalidPosition
                    &&& old(self).cursor_pos.0 + len > cluster_count(old(self).content@)
                    &&& final(self).content == old(self).content
                },
            },
    {
        let x: usize = self.cursor_pos.0;
        match line_replace(self.content.as_str(), x, len, replace_str) {
            Some(out) => {
                self.content = out;
                Ok(())
            },
            None => Err(BufferError::InvalidPosition),
        }
    }

    /// Removes `len` clusters from the cursor on.
    ///
    /// Fails with `InvalidPosition`, changing nothing, if the input has
    /// fewer than that many clusters from the cursor on.
    pub fn delete_content_at(&mut self, len: usize) -> (r: Result<(), BufferError>)
        ensures
            final(self).same_bar(old(self)),
            match r {
                Ok(()) => {
                    let x = old(self).cursor_pos.0;
                    &&& x + len <= cluster_count(old(self).content@)
                    &&& final(self).content@ == remove_span(
                        old(self).content@,
                        x as int,
                        len as int,
                    )
                },
                Err(e) => {
                    &&& e is InvalidPosition
                    &&& old(self).cursor_pos.0 + len > cluster_count(old(self).content@)
                    &&& final(self).content == old(self).content
                },
            },
    {
        let x: usize = self.cursor_pos.0;
        match line_remove(self.content.as_str(), x, len) {
            Some((rest, _removed)) => {
                self.content = rest;
                Ok(())
            },
            None => Err(BufferError::InvalidPosition),
        }
    }

    /// Inserts `add_str` at the cursor.
    ///
    /// Fails with `InvalidPosition`, changing nothing, if the cursor
    /// stands past the end of the input.
    pub fn add_content_at(&mut self, add_str: &str) -> (r: Result<(), BufferError>)
        ensures
            final(self).same_bar(old(self)),
            match r {
                Ok(()) => {
                    let x = old(self).cursor_pos.0;
                    &&& x <= cluster_count(old(self).content@)
                    &&& final(self).content@ == insert_text(old(self).content@, x as int, add_str@)
                },
                Err(e) => {
                    &&& e is InvalidPosition
                    &&& old(self).cursor_pos.0 > cluster_count(old(self).content@)
                    &&& final(self).content == old(self).content
                },
            },
    {
        let x: usize = self.cursor_pos.0;
        if x > get_line_len(&self.content) {
            return Err(BufferError::InvalidPosition);
        }
        self.content = line_insert(self.content.as_str(), x, add_str);
        Ok(())
    }

    /// Moves the cursor one cluster to the right, if the input goes on.
    pub fn mv_cursor_right(&mut self)
        ensures
            final(self).cursor_pos == if old(self).cursor_pos.0 < cluster_count(
                old(self).content@,
            ) {
                ((old(self).cursor_pos.0 + 1) as usize, old(self).cursor_pos.1)
            } else {
                old(self).cursor_pos
            },
            final(self).content == old(self).content,
            final(self).kmj == old(self).kmj,
            final(self).say == old(self).say,
            final(self).scroll_offset == old(self).scroll_offset,
            final(self).status == old(self).status,
    {
        let n: usize = get_line_len(&self.content);
        if self.cursor_pos.0 < n {
            self.cursor_pos.0 = self.cursor_pos.0 + 1;
        }
    }

    /// Moves the cursor one cluster to the left, if it is not at the
    /// start.
    pub fn mv_cursor_left(&mut self)
        ensures
            final(self).cursor_pos == if old(self).cursor_pos.0 > 0 {
                ((old(self).cursor_pos.0 - 1) as usize, old(self).cursor_pos.1)
            } else {
                old(self).cursor_pos
            },
            final(self).content == old(self).content,
            final(self).kmj == old(self).kmj,
            final(self).say == old(self).say,
            final(self).scroll_offset == old(self).scroll_offset,
            final(self).status == old(self).status,
    {
        if self.cursor_pos.0 > 0 {
            self.cursor_pos.0 = self.cursor_pos.0 - 1;
        }
    }

    /// Backspace: removes the cluster before the cursor and moves the
    /// cursor onto its place. Does nothing at the start of the input or
    /// with a cursor past its end.
    pub fn handle_backspace(&mut self)
        ensures
            ({
                let x = old(self).cursor_pos.0;
                if 0 < x <= cluster_count(old(self).content@) {
                    &&& final(self).content@ == remove_span(old(self).content@, x - 1, 1)
                    &&& final(self).cursor_pos == ((x - 1) as usize, old(self).cursor_pos.1)
                } else {
                    &&& final(self).content == old(self).content
                    &&& final(self).cursor_pos == old(self).cursor_pos
                }
            }),
            final(self).kmj == old(self).kmj,
            final(self).say == old(self).say,
            final(self).scroll_offset == old(self).scroll_offset,
            final(self).status == old(self).status,
    {
        let x: usize = self.cursor_pos.0;
        if x > 0 {
            match line_remove(self.content.as_str(), x - 1, 1) {
                Some((rest, _removed)) => {
                    self.content = rest;
                    self.cursor_pos.0 = x - 1;
                },
                None => {},
            }
        }
    }

    /// Moves the horizontal scroll offset so that the end of the input
    /// lies inside a viewport of `viewport_width` columns.
    pub fn update_scroll(&mut self, viewport_width: usize)
        ensures
            final(self).scroll_offset == (
                scroll_axis(
                    cluster_count(old(self).content@) as int,
                    viewport_width as int,
                    0,
                    old(self).scroll_offset.0 as int,
                ) as usize,
                old(self).scroll_offset.1,
            ),
            final(self).content == old(self).content,
            final(self).kmj == old(self).kmj,
            final(self).say == old(self).say,
            final(self).cursor_pos == old(self).cursor_pos,
            final(self).status == old(self).status,
    {
        let end: usize = get_line_len(&self.content);
        self.scroll_offset.0 = compute_scroll_axis(end, viewport_width, 0, self.scroll_offset.0);
    }

    /// Display column at which cluster `char_idx` of the input starts.
    pub fn get_visual_width_upto(&self, char_idx: usize) -> (r: usize)
        requires
            visual_width(self.content@, char_idx as int) <= usize::MAX,
        ensures
            r == visual_width(self.content@, char_idx as int),
    {
        width_upto(self.content.as_str(), char_idx)
    }

    /// [`KaoCo::get_visual_width_upto`] for any input: `None` if the
    /// column does not fit a `usize`.
    pub fn checked_visual_width_upto(&self, char_idx: usize) -> (r: Option<usize>)
        ensures
            match r {
                Some(w) => w == visual_width(self.content@, char_idx as int),
                None => visual_width(self.content@, char_idx as int) > usize::MAX,
            },
    {
        match checked_width_upto(self.content.as_str(), char_idx) {
            Some(_) => Some(self.get_visual_width_upto(char_idx)),
            None => None,
        }
    }

    /// Makes the bar ask for a file name; the next input is taken as the
    /// name to save to.
    pub fn ask_and_save(&mut self)
        ensures
            final(self).status == CmdStatus::Exec(ExCmd::AskAndSave),
            final(self).say@ == "Input the file's name"@,
            final(self).content == old(self).content,
            final(self).kmj == old(self).kmj,
            final(self).cursor_pos == old(self).cursor_pos,
            final(self).scroll_offset == old(self).scroll_offset,
    {
        self.status = CmdStatus::Exec(ExCmd::AskAndSave);
        self.say = String::from_str("Input the file's name");
    }
}

/// Whether `bm1` is `bm0` with the buffer of the focused pane of `lm`
/// renamed to `name`, and nothing else touched.
pub open spec fn focused_renamed(
    bm0: &BufferManager,
    lm: &LayoutManager,
    bm1: &BufferManager,
    name: Seq<char>,
) -> bool {
    let before = lm.focused_buffer(bm0);
    let i = bm0.index_of(before.id);
    let after = bm1.buffers[i];
    &&& bm1.buffers@ == bm0.buffers@.update(i, after)
    &&& bm1.current_buffer == bm0.current_buffer
    &&& bm1.next_id == bm0.next_id
    &&& after.name@ == name
    &&& after.id == before.id
    &&& after.same_text(&before)
    &&& after.path == before.path
    &&& after.file_info == before.file_info
    &&& after.cursor_pos == before.cursor_pos
    &&& after.scroll_offset == before.scroll_offset
    &&& after.scroll_thres == before.scroll_thres
}

/// The pane that the command `change pane` gives the focus to.
pub const FIRST_PANE: usize = 1;

/// Whether `lm1` is `lm0` with the focus on pane `id`, and nothing else
/// touched.
pub open spec fn focus_given(lm0: &LayoutManager, lm1: &LayoutManager, id: usize) -> bool {
    &&& lm1.current_layout == id
    &&& lm1.panes == lm0.panes
    &&& lm1.pane_rects == lm0.pane_rects
    &&& lm1.id_counter == lm0.id_counter
    &&& lm1.free_mode == lm0.free_mode
}

/// The direction that a focus command names.
pub open spec fn focus_direction(c: Command) -> Option<MoveDir> {
    match c {
        Command::RightPane => Some(MoveDir::Right),
        Command::LeftPane => Some(MoveDir::Left),
        Command::UpPane => Some(MoveDir::Up),
        Command::DownPane => Some(MoveDir::Down),
        _ => None,
    }
}

impl KaoCo {
    /// Whether `self` is `before` after a command that was carried out:
    /// the status is `Success` and nothing else differs.
    pub open spec fn succeeded(&self, before: &KaoCo) -> bool {
        &&& self.status == CmdStatus::Success
        &&& self.kmj == before.kmj
        &&& self.say == before.say
        &&& self.content == before.content
        &&& self.cursor_pos == before.cursor_pos
        &&& self.scroll_offset == before.scroll_offset
    }

    /// What handling the input of the bar `k0` does, for a focused pane
    /// whose buffer exists. `self` is the bar afterwards; `bm0`, `lm0` and
    /// `s0` are buffers, layout and screen before, `bm1`, `lm1` and `s1`
    /// after; `res` is what the caller is told.
    ///
    /// While the bar waits for a file name, the trimmed input names the
    /// file: the focused buffer takes it as its name, and the caller is
    /// asked to write the buffer there. Otherwise the trimmed input is
    /// read as a command. Empty input does nothing. `save` asks the caller
    /// to write a bound buffer, and makes the bar ask for a name for an
    /// unbound one. What is no command makes the bar say so. Every other
    /// command is carried out, and the caller is told to leave the bar:
    /// `revoke` and `redo` step through the history, `head` and `tail`
    /// move the cursor in its line, `change name` gives the buffer the
    /// name `omg`, `new buffer` makes an empty buffer, `sv` and `sh` split
    /// the pane, `close` closes it and then moves the focus to the right,
    /// the four pane commands move the focus, and `change pane` gives the
    /// focus to the first pane.
    pub open spec fn handled(
        &self,
        k0: &KaoCo,
        bm0: &BufferManager,
        lm0: &LayoutManager,
        s0: Screen,
        bm1: &BufferManager,
        lm1: &LayoutManager,
        s1: Screen,
        res: CommandResult,
    ) -> bool {
        let buf = lm0.focused_buffer(bm0);
        let pane = lm0.focused()->0;
        let input = trim(k0.content@);
        if k0.status == CmdStatus::Exec(ExCmd::AskAndSave) {
            &&& focused_renamed(bm0, lm0, bm1, input)
            &&& *lm1 == *lm0
            &&& s1 == s0
            &&& res.leave
            &&& res.save matches Some(req)
            &&& req.path@ == input
            &&& req.text@ == join_lines(buf.lines())
            &&& self.status == CmdStatus::Success
            &&& self.say@ == Seq::<char>::empty()
            &&& self.kmj == k0.kmj
            &&& self.content == k0.content
            &&& self.cursor_pos == k0.cursor_pos
            &&& self.scroll_offset == k0.scroll_offset
        } else {
            match spec_parse(input) {
                Command::Empty => {
                    &&& *self == *k0
                    &&& *bm1 == *bm0
                    &&& *lm1 == *lm0
                    &&& s1 == s0
                    &&& !res.leave
                    &&& res.save is None
                },
                Command::Unknown => {
                    &&& self.status == CmdStatus::Failed
                    &&& self.say@ == "Unknown command"@
                    &&& self.kmj == k0.kmj
                    &&& self.content == k0.content
                    &&& self.cursor_pos == k0.cursor_pos
                    &&& self.scroll_offset == k0.scroll_offset
                    &&& *bm1 == *bm0
                    &&& *lm1 == *lm0
                    &&& s1 == s0
                    &&& !res.leave
                    &&& res.save is None
                },
                Command::Save => {
                    &&& *bm1 == *bm0
                    &&& *lm1 == *lm0
                    &&& s1 == s0
                    &&& !res.leave
                    &&& match buf.path {
                        Some(p) => {
                            &&& *self == *k0
                            &&& res.save matches Some(req)
                            &&& req.path@ == p@
                            &&& req.text@ == join_lines(buf.lines())
                        },
                        None => {
                            &&& res.save is None
                            &&& self.status == CmdStatus::Exec(ExCmd::AskAndSave)
                            &&& self.say@ == "Input the file's name"@
                            &&& self.kmj == k0.kmj
                            &&& self.content == k0.content
                            &&& self.cursor_pos == k0.cursor_pos
                            &&& self.scroll_offset == k0.scroll_offset
                        },
                    }
                },
                command => {
                    &&& self.succeeded(k0)
                    &&& res.leave
                    &&& res.save is None
                    &&& match command {
                        Command::Revoke => history_stepped(bm0, lm0, bm1, lm1, false) && s1 == s0,
                        Command::Redo => history_stepped(bm0, lm0, bm1, lm1, true) && s1 == s0,
                        Command::Head => {
                            &&& lm1.cursor_moved(lm0, (0int, pane->cursor_pos.1 as int))
                            &&& *bm1 == *bm0
                            &&& s1 == s0
                        },
                        Command::Tail => {
                            let c = clamp_cursor(buf.lines(), pos_int(pane->cursor_pos));
                            &&& lm1.cursor_moved(
                                lm0,
                                (cluster_count(buf.lines()[c.1]) as int, c.1),
                            )
                            &&& *bm1 == *bm0
                            &&& s1 == s0
                        },
                        Command::NewBuffer => {
                            &&& bm1.buffer_added(bm0, "Untitled"@)
                            &&& *lm1 == *lm0
                            &&& s1 == s0
                        },
                        Command::SplitVertical => {
                            &&& focused_split(lm0, lm1, SplitDirection::Vertical, None)
                            &&& *bm1 == *bm0
                            &&& s1 == s0
                        },
                        Command::SplitHorizontal => {
                            &&& focused_split(lm0, lm1, SplitDirection::Horizontal, None)
                            &&& *bm1 == *bm0
                            &&& s1 == s0
                        },
                        Command::ChangeName => {
                            &&& focused_renamed(bm0, lm0, bm1, "omg"@)
                            &&& *lm1 == *lm0
                            &&& s1 == s0
                        },
                        Command::ChangePane => {
                            &&& lm0.pane_rects@.contains_key(FIRST_PANE)
                            &&& focus_given(lm0, lm1, FIRST_PANE)
                            &&& *bm1 == *bm0
                            &&& s1 == s0
                        },
                        Command::Close => {
                            &&& exists|mid: LayoutManager, choice: Option<usize>|
                                mid.wf() && #[trigger] focused_closed(lm0, &mid, s0, s1)
                                    && #[trigger] lm1.focus_moved(&mid, MoveDir::Right, choice)
                            &&& *bm1 == *bm0
                        },
                        _ => {
                            &&& focus_direction(command) matches Some(dir)
                            &&& exists|choice: Option<usize>| #[trigger]
                                lm1.focus_moved(lm0, dir, choice)
                            &&& *bm1 == *bm0
                            &&& s1 == s0
                        },
                    }
                },
            }
        }
    }

    /// Handles the input of the command bar; see [`KaoCo::handled`].
    ///
    /// Fails as [`LayoutManager::get_current_buffer`] does. Apart from
    /// that it fails with `IdNotFound` on the command `change pane` where
    /// no rectangle is known for the first pane. A failure changes
    /// nothing.
    pub fn handle_command(
        &mut self,
        buf_m: &mut BufferManager,
        lm: &mut LayoutManager,
        cur_screen: &mut Screen,
    ) -> (r: Result<CommandResult, LayoutError>)
        requires
            old(buf_m).wf(),
            old(lm).wf(),
            old(buf_m).next_id < usize::MAX,
            old(lm).id_counter < usize::MAX,
        ensures
            final(buf_m).wf(),
            final(lm).wf(),
            match r {
                Ok(res) => {
                    &&& old(lm).focus_ready(old(buf_m))
                    &&& final(self).handled(
                        old(self),
                        old(buf_m),
                        old(lm),
                        *old(cur_screen),
                        final(buf_m),
                        final(lm),
                        *final(cur_screen),
                        res,
                    )
                },
                Err(e) => {
                    &&& *final(self) == *old(self)
                    &&& *final(buf_m) == *old(buf_m)
                    &&& *final(lm) == *old(lm)
                    &&& *final(cur_screen) == *old(cur_screen)
                    &&& if old(lm).focus_ready(old(buf_m)) {
                        &&& e is IdNotFound
                        &&& old(self).status != CmdStatus::Exec(ExCmd::AskAndSave)
                        &&& spec_parse(trim(old(self).content@)) == Command::ChangePane
                        &&& !old(lm).pane_rects@.contains_key(FIRST_PANE)
                    } else {
                        old(lm).is_focus_error(old(buf_m), e)
                    }
                },
            },
    {
        match lm.focus_info(buf_m) {
            Ok(_) => {},
            Err(e) => {
                return Err(e);
            },
        }
        match self.status {
            CmdStatus::Exec(ExCmd::AskAndSave) => {
                let name: String = trim_text(self.content.as_str());
                let buf: &mut Buffer = match lm.get_current_buffer_mut(buf_m) {
                    Ok(buf) => buf,
                    Err(e) => {
                        return Err(e);
                    },
                };
                let ghost id = buf.id;
                buf.change_name(name.as_str());
                let req: SaveRequest = buf.save_to(name.as_str());
                proof {
                    lemma_replace_keeps_wf(*old(buf_m), *buf_m, id);
                }
                self.say = String::new();
                self.status = CmdStatus::Success;
                return Ok(CommandResult { leave: true, save: Some(req) });
            },
            _ => {},
        }
        let command: Command = parse_command(self.content.as_str());
        match command {
            Command::Empty => {
                return Ok(CommandResult { leave: false, save: None });
            },
            Command::Unknown => {
                self.say = String::from_str("Unknown command");
                self.status = CmdStatus::Failed;
                return Ok(CommandResult { leave: false, save: None });
            },
            Command::Save => {
                let bound: bool = match crate::command::is_buffer_binding(buf_m, lm) {
                    Ok(b) => b,
                    Err(e) => {
                        return Err(e);
                    },
                };
                if bound {
                    match crate::command::save(buf_m, lm) {
                        Ok(req) => {
                            return Ok(CommandResult { leave: false, save: Some(req) });
                        },
                        Err(e) => {
                            return Err(e);
                        },
                    }
                } else {
                    self.ask_and_save();
                    return Ok(CommandResult { leave: false, save: None });
                }
            },
            Command::Revoke => {
                match revoke(buf_m, lm) {
                    Ok(()) => {},
                    Err(e) => {
                        return Err(e);
                    },
                }
            },
            Command::Redo => {
                match redo(buf_m, lm) {
                    Ok(()) => {},
                    Err(e) => {
                        return Err(e);
                    },
                }
            },
            Command::Head => {
                match lm.mv_cursor_head() {
                    Ok(()) => {},
                    Err(e) => {
                        return Err(e);
                    },
                }
            },
            Command::Tail => {
                match lm.mv_cursor_tail(buf_m) {
                    Ok(()) => {},
                    Err(e) => {
                        return Err(e);
                    },
                }
            },
            Command::NewBuffer => {
                buf_m.add_new_buffer("Untitled");
            },
            Command::SplitVertical => {
                match split(buf_m, lm, SplitDirection::Vertical, None) {
                    Ok(()) => {},
                    Err(e) => {
                        return Err(e);
                    },
                }
            },
            Command::SplitHorizontal => {
                match split(buf_m, lm, SplitDirection::Horizontal, None) {
                    Ok(()) => {},
                    Err(e) => {
                        return Err(e);
                    },
                }
            },
            Command::ChangeName => {
                let buf: &mut Buffer = match lm.get_current_buffer_mut(buf_m) {
                    Ok(buf) => buf,
                    Err(e) => {
                        return Err(e);
                    },
                };
                let ghost id = buf.id;
                buf.change_name("omg");
                proof {
                    lemma_replace_keeps_wf(*old(buf_m), *buf_m, id);
                }
            },
            Command::ChangePane => {
                match change_pane(lm, FIRST_PANE) {
                    Ok(()) => {},
                    Err(e) => {
                        return Err(e);
                    },
                }
            },
            Command::Close => {
                match close_current_pane(lm, cur_screen) {
                    Ok(()) => {},
                    Err(e) => {
                        return Err(e);
                    },
                }
                let ghost mid = *lm;
                let choice: Option<usize> = move_focus_in_pane(lm, MoveDir::Right);
                proof {
                    assert(focused_closed(old(lm), &mid, *old(cur_screen), *cur_screen));
                    assert(lm.focus_moved(&mid, MoveDir::Right, choice));
                }
            },
            Command::RightPane => {
                let choice: Option<usize> = move_focus_in_pane(lm, MoveDir::Right);
                proof {
                    assert(lm.focus_moved(old(lm), MoveDir::Right, choice));
                }
            },
            Command::LeftPane => {
                let choice: Option<usize> = move_focus_in_pane(lm, MoveDir::Left);
                proof {
                    assert(lm.focus_moved(old(lm), MoveDir::Left, choice));
                }
            },
            Command::UpPane => {
                let choice: Option<usize> = move_focus_in_pane(lm, MoveDir::Up);
                proof {
                    assert(lm.focus_moved(old(lm), MoveDir::Up, choice));
                }
            },
            Command::DownPane => {
                let choice: Option<usize> = move_focus_in_pane(lm, MoveDir::Down);
                proof {
                    assert(lm.focus_moved(old(lm), MoveDir::Down, choice));
                }
            },
        }
        self.status = CmdStatus::Success;
        Ok(CommandResult { leave: true, save: None })
    }
}

} // verus!
