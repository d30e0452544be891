//! The state of the whole editor: the buffers, the layout, the command bar
//! and what is on screen.

use crate::buffer::FileProbe;
use crate::document::{doc_delete, doc_insert, doc_join, doc_split};
use crate::buffer_manager::BufferManager;
use crate::command::add_content_at;
use crate::cursor::{
    clamp_cursor, clamp_line, cursor_down, cursor_left, cursor_right, cursor_up, pos_int,
};
use crate::error::{BufferError, LayoutError};
use crate::grapheme::cluster_count;
use crate::kaoco::{CmdStatus, KaoCo, KaoMoJi};
use crate::layout::layout_manager::LayoutManager;
use crate::layout::rect::Rect;
use crate::layout::tree::LayoutNode;
use crate::lines::{file_lines, push_char};
use crate::screen::{Mod, Screen};
use vstd::prelude::*;

verus! {

/// The editor.
pub struct App {
    pub buf_manager: BufferManager,
    pub layout_manager: LayoutManager,
    pub command: KaoCo,
    pub current_screen: Screen,
    pub current_mod: Mod,
    /// Set when the editor is to end.
    pub should_exit: bool,
}

impl App {
    /// The editor's invariant: buffers and layout are well formed.
    pub open spec fn wf(&self) -> bool {
        self.buf_manager.wf() && self.layout_manager.wf()
    }

    /// Whether the focused pane and its buffer exist.
    pub open spec fn ready(&self) -> bool {
        self.layout_manager.focus_ready(&self.buf_manager)
    }

    /// The lines of the buffer in the focused pane.
    pub open spec fn lines(&self) -> Seq<Seq<char>> {
        self.layout_manager.focused_buffer(&self.buf_manager).lines()
    }

    /// The cursor of the focused pane, pulled back into its buffer.
    pub open spec fn cursor(&self) -> (int, int) {
        clamp_cursor(self.lines(), pos_int(self.layout_manager.focused()->0->cursor_pos))
    }

    /// The cursor of the focused pane, with its line pulled back into its
    /// buffer and its column as it is.
    pub open spec fn cursor_on_line(&self) -> (int, int) {
        clamp_line(self.lines(), pos_int(self.layout_manager.focused()->0->cursor_pos))
    }

    /// Whether `self` and `other` differ at most in buffers and layout.
    pub open spec fn same_shell(&self, other: &App) -> bool {
        &&& self.command == other.command
        &&& self.current_screen == other.current_screen
        &&& self.current_mod == other.current_mod
        &&& self.should_exit == other.should_exit
    }

    /// Whether `self` is `before` with the cursor of the focused pane at
    /// `c`, or `before` itself where no pane with a buffer has the focus.
    pub open spec fn cursor_at(&self, before: &App, c: (int, int)) -> bool {
        &&& self.same_shell(before)
        &&& self.buf_manager == before.buf_manager
        &&& if before.ready() {
            self.layout_manager.cursor_moved(&before.layout_manager, c)
        } else {
            self.layout_manager == before.layout_manager
        }
    }

    /// An editor with nothing open, on the welcome screen: no buffer and
    /// no current buffer, no pane and no rectangle, free mode off, an
    /// empty command bar in its normal state, and input mode.
    pub fn new() -> (r: Self)
        ensures
            r.wf(),
            r.buf_manager.buffers@.len() == 0,
            r.buf_manager.current_buffer is None,
            r.buf_manager.next_id == 0,
            r.layout_manager.panes is None,
            r.layout_manager.id_counter == 1,
            r.layout_manager.current_layout == 0,
            !r.layout_manager.free_mode,
            r.layout_manager.pane_rects@ == Map::<usize, Rect>::empty(),
            r.command.kmj == KaoMoJi::Smile,
            r.command.say@ == Seq::<char>::empty(),
            r.command.content@ == Seq::<char>::empty(),
            r.command.cursor_pos == (0usize, 0usize),
            r.command.scroll_offset == (0usize, 0usize),
            r.command.status == CmdStatus::Normal,
            r.current_screen == Screen::Welcome,
            r.current_mod == Mod::Input,
            !r.should_exit,
    {
        Self {
            buf_manager: BufferManager::new(),
            layout_manager: LayoutManager::new(),
            command: KaoCo::new(),
            current_screen: Screen::Welcome,
            current_mod: Mod::Input,
            should_exit: false,
        }
    }

    /// Opens an empty buffer named `name` in a single pane and shows the
    /// editor screen.
    pub fn init(&mut self, name: &str)
        requires
            old(self).wf(),
            old(self).buf_manager.next_id < usize::MAX,
            old(self).layout_manager.id_counter < usize::MAX,
        ensures
            final(self).wf(),
            final(self).ready(),
            final(self).buf_manager.buffer_added(&old(self).buf_manager, name@),
            final(self).layout_manager.panes == Some(
                LayoutNode::spec_new_pane(
                    old(self).layout_manager.id_counter,
                    old(self).buf_manager.next_id,
                ),
            ),
            final(self).layout_manager.current_layout == old(self).layout_manager.id_counter,
            final(self).layout_manager.id_counter == old(self).layout_manager.id_counter + 1,
            final(self).current_screen == Screen::Editor,
            final(self).command == old(self).command,
            final(self).current_mod == old(self).current_mod,
            final(self).should_exit == old(self).should_exit,
    {
        let id: usize = self.buf_manager.add_new_buffer(name);
        self.layout_manager.init(id);
        self.current_screen = Screen::Editor;
        proof {
            let t = self.layout_manager.panes->0;
            assert(t.pane_ids()[0] == self.layout_manager.current_layout);
            crate::layout::tree::lemma_find(t, self.layout_manager.current_layout);
        }
    }

    /// Opens the file that `probe` describes in a single pane and shows
    /// the editor screen.
    ///
    /// Fails as [`BufferManager::open_file`] does, changing nothing.
    pub fn init_from_file(&mut self, path: &str, name: &str, probe: FileProbe) -> (r: Result<
        (),
        BufferError,
    >)
        requires
            old(self).wf(),
            old(self).buf_manager.next_id < usize::MAX,
            old(self).layout_manager.id_counter < usize::MAX,
        ensures
            final(self).wf(),
            match probe {
                FileProbe::NotAFile => r matches Err(e) && e is NotAFile && *final(self) == *old(
                    self,
                ),
                FileProbe::Unreadable(cause) => r matches Err(e) && e == BufferError::IOError(
                    cause,
                ) && *final(self) == *old(self),
                FileProbe::Loaded { text, size, read_only } => {
                    let id = old(self).buf_manager.next_id;
                    &&& r is Ok
                    &&& final(self).ready()
                    &&& final(self).buf_manager.has_id(id)
                    &&& final(self).lines() == file_lines(text@)
                    &&& final(self).buf_manager.buffers@.drop_last() == old(
                        self,
                    ).buf_manager.buffers@
                    &&& final(self).layout_manager.panes == Some(
                        LayoutNode::spec_new_pane(old(self).layout_manager.id_counter, id),
                    )
                    &&& final(self).layout_manager.current_layout == old(
                        self,
                    ).layout_manager.id_counter
                    &&& final(self).current_screen == Screen::Editor
                    &&& final(self).command == old(self).command
                    &&& final(self).current_mod == old(self).current_mod
                    &&& final(self).should_exit == old(self).should_exit
                },
            },
    {
        let id: usize = match self.buf_manager.open_file(path, name, probe) {
            Ok(id) => id,
            Err(e) => {
                return Err(e);
            },
        };
        self.layout_manager.init(id);
        self.current_screen = Screen::Editor;
        proof {
            let t = self.layout_manager.panes->0;
            assert(t.pane_ids()[0] == self.layout_manager.current_layout);
            crate::layout::tree::lemma_find(t, self.layout_manager.current_layout);
        }
        Ok(())
    }

    /// Moves the cursor of the focused pane one cluster to the right; see
    /// [`LayoutManager::mv_cursor_right`]. Without a focused pane and its
    /// buffer nothing happens.
    pub fn mv_cursor_right(&mut self)
        requires
            old(self).wf(),
        ensures
            final(self).wf(),
            final(self).cursor_at(
                old(self),
                cursor_right(
                    old(self).lines(),
                    old(self).cursor_on_line(),
                    old(self).layout_manager.free_mode,
                ),
            ),
    {
        match self.layout_manager.mv_cursor_right(&mut self.buf_manager) {
            Ok(()) => {},
            Err(_) => {},
        }
    }

    /// Moves the cursor of the focused pane one cluster to the left; see
    /// [`LayoutManager::mv_cursor_left`]. Without a focused pane and its
    /// buffer nothing happens.
    pub fn mv_cursor_left(&mut self)
        requires
            old(self).wf(),
        ensures
            final(self).wf(),
            final(self).cursor_at(
                old(self),
                cursor_left(
                    old(self).lines(),
                    old(self).cursor_on_line(),
                    old(self).layout_manager.free_mode,
                ),
            ),
    {
        match self.layout_manager.mv_cursor_left(&mut self.buf_manager) {
            Ok(()) => {},
            Err(_) => {},
        }
    }

    /// Moves the cursor of the focused pane one line up; see
    /// [`LayoutManager::mv_cursor_up`]. Without a focused pane and its
    /// buffer nothing happens.
    pub fn mv_cursor_up(&mut self)
        requires
            old(self).wf(),
        ensures
            final(self).wf(),
            final(self).cursor_at(old(self), cursor_up(old(self).lines(), old(self).cursor_on_line())),
    {
        match self.layout_manager.mv_cursor_up(&mut self.buf_manager) {
            Ok(()) => {},
            Err(_) => {},
        }
    }

    /// Moves the cursor of the focused pane one line down; see
    /// [`LayoutManager::mv_cursor_down`]. Without a focused pane and its
    /// buffer nothing happens.
    pub fn mv_cursor_down(&mut self)
        requires
            old(self).wf(),
        ensures
            final(self).wf(),
            final(self).same_shell(old(self)),
            if !old(self).ready() {
                &&& final(self).buf_manager == old(self).buf_manager
                &&& final(self).layout_manager == old(self).layout_manager
            } else if old(self).cursor_on_line().1 + 1 < old(self).lines().len() || !old(
                self,
            ).layout_manager.free_mode {
                &&& final(self).buf_manager == old(self).buf_manager
                &&& final(self).layout_manager.cursor_moved(
                    &old(self).layout_manager,
                    cursor_down(old(self).lines(), old(self).cursor_on_line()),
                )
            } else {
                &&& final(self).buf_manager.buffer_edited(
                    &old(self).buf_manager,
                    old(self).layout_manager.focused()->0->buffer_id,
                    old(self).lines().push(Seq::empty()),
                )
                &&& final(self).layout_manager.cursor_moved(
                    &old(self).layout_manager,
                    (0int, old(self).cursor_on_line().1 + 1),
                )
            },
    {
        match self.layout_manager.mv_cursor_down(&mut self.buf_manager) {
            Ok(()) => {},
            Err(_) => {},
        }
    }

    /// Types `ch`: inserts it at the cursor of the focused pane and moves
    /// the cursor one cluster to the right in the new text.
    ///
    /// Fails as [`add_content_at`] does, changing nothing.
    pub fn insert_char(&mut self, ch: char) -> (r: Result<(), LayoutError>)
        requires
            old(self).wf(),
        ensures
            final(self).wf(),
            final(self).same_shell(old(self)),
            match r {
                Ok(()) => {
                    let pane = old(self).layout_manager.focused()->0;
                    let lines = doc_insert(old(self).lines(), pos_int(pane->cursor_pos), seq![ch]);
                    &&& old(self).ready()
                    &&& pane->cursor_pos.1 < old(self).lines().len()
                    &&& final(self).buf_manager.buffer_edited(
                        &old(self).buf_manager,
                        pane->buffer_id,
                        lines,
                    )
                    &&& final(self).layout_manager.cursor_moved(
                        &old(self).layout_manager,
                        cursor_right(
                            lines,
                            clamp_line(lines, pos_int(pane->cursor_pos)),
                            old(self).layout_manager.free_mode,
                        ),
                    )
                },
                Err(e) => {
                    &&& final(self).buf_manager == old(self).buf_manager
                    &&& final(self).layout_manager == old(self).layout_manager
                    &&& if old(self).ready() {
                        &&& e matches LayoutError::BufferErr(b)
                        &&& b is InvalidPosition
                        &&& old(self).layout_manager.focused()->0->cursor_pos.1 >= old(
                            self,
                        ).lines().len()
                    } else {
                        old(self).layout_manager.is_focus_error(&old(self).buf_manager, e)
                    }
                },
            },
    {
        let mut text: String = String::new();
        push_char(&mut text, ch);
        proof {
            assert(text@ =~= seq![ch]);
        }
        match add_content_at(&mut self.buf_manager, &mut self.layout_manager, text.as_str()) {
            Ok(()) => {},
            Err(e) => {
                return Err(e);
            },
        }
        proof {
            let bm0 = old(self).buf_manager;
            let bm1 = self.buf_manager;
            let id = old(self).layout_manager.focused()->0->buffer_id;
            crate::buffer_manager::lemma_replace_keeps_wf(bm0, bm1, id);
            let i = bm0.index_of(id);
            assert(bm0.ids()[i] == id);
            assert(bm1.ids()[i] == id);
            assert(bm1.index_of(id) == i) by {
                crate::layout::tree::lemma_index_unique(bm1.ids(), i);
            }
        }
        match self.layout_manager.mv_cursor_right(&mut self.buf_manager) {
            Ok(()) => Ok(()),
            Err(e) => {
                proof {
                    assert(false);
                }
                Err(e)
            },
        }
    }

    /// Backspace in the focused pane; see
    /// [`LayoutManager::handle_backspace`]. Without a focused pane and its
    /// buffer nothing happens.
    pub fn handle_backspace(&mut self)
        requires
            old(self).wf(),
        ensures
            final(self).wf(),
            final(self).same_shell(old(self)),
            if !old(self).ready() {
                &&& final(self).buf_manager == old(self).buf_manager
                &&& final(self).layout_manager == old(self).layout_manager
            } else {
                let id = old(self).layout_manager.focused()->0->buffer_id;
                let lines = old(self).lines();
                let c = old(self).cursor();
                if c.0 > 0 {
                    &&& final(self).layout_manager.cursor_moved(
                        &old(self).layout_manager,
                        (c.0 - 1, c.1),
                    )
                    &&& final(self).buf_manager.buffer_edited(
                        &old(self).buf_manager,
                        id,
                        doc_delete(lines, (c.0 - 1, c.1), 1),
                    )
                } else if c.1 > 0 {
                    &&& final(self).layout_manager.cursor_moved(
                        &old(self).layout_manager,
                        (cluster_count(lines[c.1 - 1]) as int, c.1 - 1),
                    )
                    &&& final(self).buf_manager.buffer_edited(
                        &old(self).buf_manager,
                        id,
                        doc_join(lines, c.1),
                    )
                } else {
                    &&& final(self).layout_manager.cursor_moved(&old(self).layout_manager, c)
                    &&& final(self).buf_manager == old(self).buf_manager
                }
            },
    {
        match self.layout_manager.handle_backspace(&mut self.buf_manager) {
            Ok(()) => {},
            Err(_) => {},
        }
    }

    /// Enter in the focused pane; see [`LayoutManager::handle_enter`].
    /// Without a focused pane and its buffer nothing happens.
    pub fn handle_enter(&mut self)
        requires
            old(self).wf(),
        ensures
            final(self).wf(),
            final(self).same_shell(old(self)),
            if !old(self).ready() {
                &&& final(self).buf_manager == old(self).buf_manager
                &&& final(self).layout_manager == old(self).layout_manager
            } else {
                &&& final(self).layout_manager.cursor_moved(
                    &old(self).layout_manager,
                    (0int, old(self).cursor().1 + 1),
                )
                &&& final(self).buf_manager.buffer_edited(
                    &old(self).buf_manager,
                    old(self).layout_manager.focused()->0->buffer_id,
                    doc_split(old(self).lines(), old(self).cursor()),
                )
            },
    {
        match self.layout_manager.handle_enter(&mut self.buf_manager) {
            Ok(()) => {},
            Err(_) => {},
        }
    }
}

} // verus!
