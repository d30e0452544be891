//! The text buffer: one document's lines, its identity and file binding,
//! and its undo history.
//!
//! Every change is an [`EditOp`] that is appended to the undo log. Beside
//! the log the buffer keeps the content after each logged edit. Undo and
//! redo move a cursor through the log and take the content from there, so
//! that undoing and redoing restore a content exactly, also where an edit
//! has moved the boundaries between grapheme clusters.

use crate::cursor::{
    clamp_cursor, clamp_line, clamp_line_pos, clamp_pos, cursor_down, cursor_left, cursor_right,
    cursor_up, cursor_valid, move_down, move_left, move_right, move_up, pos_int,
};
use crate::document::{
    apply_spec, block_end, block_text, block_valid, doc_delete, doc_delete_block,
    doc_delete_line, doc_insert, doc_insert_block, doc_join, doc_split, lemma_join_is_block,
    lemma_split_is_block, saturate, Lines,
};
use crate::error::BufferError;
use crate::grapheme::{
    checked_width_upto, cluster_count, count_clusters, display_width, head_text, line_insert,
    line_remove, line_split, span_text, str_width, tail_text, visual_width, width_upto,
};
use crate::history::{lemma_record, History};
use crate::lines::{file_lines, join_lines, join_text, load_lines, split_lines, split_text};
use crate::op::EditOp;
use crate::scroll::{compute_scroll, cursor_in_view, scroll_axis};
use crate::utils::{
    arc_vec_to_string, detect_line_ending, get_line_len, has_crlf, FileFormat, FileInfo,
};
use vstd::prelude::*;
use vstd::string::StringExecFns;

verus! {

/// One open document.
pub struct Buffer {
    /// Identity, given by the buffer manager.
    pub id: usize,
    /// The lines, without line endings. Never empty.
    pub content: Vec<String>,
    /// Every content since the buffer was made, oldest first, up to the
    /// newest that can be redone. Undo and redo take the content from here,
    /// so that they restore it exactly.
    pub history: Vec<Vec<String>>,
    /// The undo log: the edits that were applied, oldest first, up to the
    /// newest that can be redone. `undo_log[i]` led from `history[i]` to
    /// `history[i + 1]`.
    pub undo_log: Vec<EditOp>,
    /// The undo cursor: the number of logged edits that are in effect,
    /// and the index into `history` of the content in effect.
    pub history_ptr: usize,
    /// Display label.
    pub name: String,
    /// Bound file, if any.
    pub path: Option<String>,
    /// The buffer's own cursor, `(char_x, line_y)`.
    pub cursor_pos: (usize, usize),
    /// First visible `(column, row)`.
    pub scroll_offset: (usize, usize),
    /// Margin kept between the cursor and the viewport edge, `(columns, rows)`.
    pub scroll_thres: (usize, usize),
    /// Snapshot of the bound file's metadata.
    pub file_info: Option<FileInfo>,
    /// False once the content differs from what was last saved.
    pub saved: bool,
}

impl Buffer {
    /// The document as a sequence of lines.
    pub open spec fn lines(&self) -> Lines {
        self.content.deep_view()
    }

    /// The undo history as a model.
    pub open spec fn history_model(&self) -> History {
        History {
            states: self.history.deep_view(),
            ops: self.undo_log@,
            ptr: self.history_ptr as int,
        }
    }

    /// The buffer's invariant: it has a line, its history is well formed,
    /// and the content in effect is the one the history points to.
    pub open spec fn wf(&self) -> bool {
        &&& self.content.len() >= 1
        &&& self.history_model().wf()
        &&& self.history_model().current() == self.lines()
    }

    /// The buffer's own cursor as a pair of integers.
    pub open spec fn cursor(&self) -> (int, int) {
        pos_int(self.cursor_pos)
    }

    /// Whether `self` and `other` have the same id, name and file binding.
    pub open spec fn same_identity(&self, other: &Buffer) -> bool {
        &&& self.id == other.id
        &&& self.name == other.name
        &&& self.path == other.path
        &&& self.file_info == other.file_info
    }

    /// Whether `self` and `other` have the same content, history and saved
    /// flag.
    pub open spec fn same_text(&self, other: &Buffer) -> bool {
        &&& self.content == other.content
        &&& self.history == other.history
        &&& self.undo_log == other.undo_log
        &&& self.history_ptr == other.history_ptr
        &&& self.saved == other.saved
    }

    /// Whether `self` and `other` agree in everything but content, history
    /// and the saved flag.
    pub open spec fn same_frame(&self, other: &Buffer) -> bool {
        &&& self.same_identity(other)
        &&& self.cursor_pos == other.cursor_pos
        &&& self.scroll_offset == other.scroll_offset
        &&& self.scroll_thres == other.scroll_thres
    }

    /// The edit that was logged last.
    pub open spec fn last_op(&self) -> EditOp {
        self.undo_log@.last()
    }

    /// Whether `self` came from `before` by one logged edit that changed
    /// the content to `lines`: the content is `lines`, the edit is the
    /// newest in the undo log, with nothing left to redo, the buffer
    /// counts as unsaved, and identity and file binding are as before.
    pub open spec fn edited_from(&self, before: &Buffer, lines: Lines) -> bool {
        &&& self.lines() == lines
        &&& self.history_model() == before.history_model().record(self.last_op(), lines)
        &&& apply_spec(before.lines(), self.last_op()) == Some(lines)
        &&& !self.saved
        &&& self.same_identity(before)
    }

    /// [`Buffer::edited_from`], with cursor and scroll state as before too.
    pub open spec fn changed_from(&self, before: &Buffer, lines: Lines) -> bool {
        &&& self.edited_from(before, lines)
        &&& self.same_frame(before)
    }

    /// A buffer without a file: one empty line, nothing to undo.
    pub fn new(name: &str) -> (r: Self)
        ensures
            r.wf(),
            r.lines() == seq![Seq::<char>::empty()],
            r.history_model() == History::start(r.lines()),
            r.name@ == name@,
            r.id == 0,
            r.path is None,
            r.cursor_pos == (0usize, 0usize),
            r.scroll_offset == (0usize, 0usize),
            r.scroll_thres == (0usize, 0usize),
            r.file_info is None,
            r.saved,
    {
        let mut content: Vec<String> = Vec::new();
        content.push(String::new());
        let mut first: Vec<String> = Vec::new();
        first.push(String::new());
        let ghost first_lines = first.deep_view();
        proof {
            assert(first_lines =~= seq![Seq::<char>::empty()]);
        }
        let mut history: Vec<Vec<String>> = Vec::new();
        history.push(first);
        let r = Self {
            id: 0,
            content,
            history,
            undo_log: Vec::new(),
            history_ptr: 0,
            name: String::from_str(name),
            path: None,
            cursor_pos: (0, 0),
            scroll_offset: (0, 0),
            scroll_thres: (0, 0),
            file_info: None,
            saved: true,
        };
        proof {
            assert(r.lines() =~= seq![Seq::<char>::empty()]);
            assert(r.history.deep_view() =~= seq![r.lines()]);
        }
        r
    }

    /// A buffer holding `content`, one line for each piece between line
    /// feeds.
    pub fn from_content(content: &str, name: &str) -> (r: Self)
        ensures
            r.wf(),
            r.lines() == split_lines(content@),
            r.history_model() == History::start(r.lines()),
            r.name@ == name@,
            r.id == 0,
            r.path is None,
            r.cursor_pos == (0usize, 0usize),
            r.scroll_offset == (0usize, 0usize),
            r.scroll_thres == (0usize, 0usize),
            r.file_info is None,
            r.saved,
    {
        let lines: Vec<String> = split_text(content);
        let first: Vec<String> = arc_vec_to_string(&lines);
        let mut history: Vec<Vec<String>> = Vec::new();
        history.push(first);
        let r = Self {
            id: 0,
            content: lines,
            history,
            undo_log: Vec::new(),
            history_ptr: 0,
            name: String::from_str(name),
            path: None,
            cursor_pos: (0, 0),
            scroll_offset: (0, 0),
            scroll_thres: (0, 0),
            file_info: None,
            saved: true,
        };
        proof {
            assert(r.history.deep_view() =~= seq![r.lines()]);
        }
        r
    }

    /// Gives the buffer another display label.
    pub fn change_name(&mut self, name: &str)
        ensures
            final(self).name@ == name@,
            final(self).id == old(self).id,
            final(self).content == old(self).content,
            final(self).history == old(self).history,
            final(self).undo_log == old(self).undo_log,
            final(self).history_ptr == old(self).history_ptr,
            final(self).path == old(self).path,
            final(self).cursor_pos == old(self).cursor_pos,
            final(self).scroll_offset == old(self).scroll_offset,
            final(self).scroll_thres == old(self).scroll_thres,
            final(self).file_info == old(self).file_info,
            final(self).saved == old(self).saved,
    {
        self.name = String::from_str(name);
    }

    /// Number of lines.
    pub fn get_line_count(&self) -> (r: usize)
        ensures
            r == self.lines().len(),
    {
        self.content.len()
    }

    /// Logs `op` as the edit that made the present content out of the
    /// content that the history has as current: marks the buffer unsaved,
    /// drops what could be redone, and appends `op` to the undo log and
    /// the present content to the history.
    pub fn handle_change(&mut self, op: EditOp)
        requires
            old(self).content.len() >= 1,
            old(self).history_model().wf(),
            apply_spec(old(self).history_model().current(), op) == Some(old(self).lines()),
        ensures
            final(self).wf(),
            final(self).last_op() == op,
            final(self).history_model() == old(self).history_model().record(op, old(self).lines()),
            final(self).content == old(self).content,
            !final(self).saved,
            final(self).same_frame(old(self)),
    {
        self.saved = false;
        let snapshot: Vec<String> = arc_vec_to_string(&self.content);
        let ghost before = self.history.deep_view();
        proof {
            assert(before.len() == self.history.len());
        }
        self.history.truncate(self.history_ptr + 1);
        let ghost mid = self.history.deep_view();
        self.history.push(snapshot);
        self.undo_log.truncate(self.history_ptr);
        self.undo_log.push(op);
        self.history_ptr = self.history_ptr + 1;
        proof {
            assert(mid =~= before.take(old(self).history_ptr + 1));
            assert(self.history.deep_view() =~= mid.push(self.lines()));
            assert(self.undo_log@ =~= old(self).undo_log@.take(old(self).history_ptr as int).push(
                op,
            ));
            lemma_record(old(self).history_model(), op, self.lines());
        }
    }
}

impl Buffer {
    /// Inserts `text` into line `pos.1` before cluster `pos.0` (at the end
    /// of the line when `pos.0` is past it) and logs the insertion.
    ///
    /// Fails with `InvalidPosition`, changing nothing, if there is no line
    /// `pos.1`. The text goes in at a cluster boundary: the line's text
    /// before and after it are whole clusters that together make the old
    /// line.
    pub fn insert(&mut self, text: &str, pos: (usize, usize)) -> (r: Result<(), BufferError>)
        requires
            old(self).wf(),
        ensures
            final(self).wf(),
            match r {
                Ok(()) => {
                    let line = old(self).lines()[pos.1 as int];
                    &&& pos.1 < old(self).lines().len()
                    &&& final(self).changed_from(
                        old(self),
                        doc_insert(old(self).lines(), (pos.0 as int, pos.1 as int), text@),
                    )
                    &&& final(self).last_op().inserts(pos, text@)
                    &&& head_text(line, pos.0 as int) + tail_text(line, pos.0 as int) == line
                },
                Err(e) => {
                    &&& e is InvalidPosition
                    &&& pos.1 >= old(self).lines().len()
                    &&& *final(self) == *old(self)
                },
            },
    {
        let (x, y): (usize, usize) = pos;
        if y >= self.content.len() {
            return Err(BufferError::InvalidPosition);
        }
        let line: String = line_insert(self.content[y].as_str(), x, text);
        let ghost before = self.lines();
        self.content[y] = line;
        proof {
            assert(self.lines() =~= doc_insert(before, (x as int, y as int), text@));
        }
        self.handle_change(
            EditOp::Insert { pos, text: String::from_str(text), len: count_clusters(text) },
        );
        Ok(())
    }

    /// Removes `char_len` clusters of line `pos.1`, starting at cluster
    /// `pos.0`, and logs the removal together with the removed text.
    ///
    /// Fails with `InvalidPosition`, changing nothing, if there is no line
    /// `pos.1` or the line has fewer than `pos.0 + char_len` clusters. Only
    /// whole clusters leave the line.
    pub fn delete(&mut self, char_len: usize, pos: (usize, usize)) -> (r: Result<(), BufferError>)
        requires
            old(self).wf(),
        ensures
            final(self).wf(),
            match r {
                Ok(()) => {
                    let line = old(self).lines()[pos.1 as int];
                    &&& pos.1 < old(self).lines().len()
                    &&& pos.0 + char_len <= cluster_count(line)
                    &&& final(self).changed_from(
                        old(self),
                        doc_delete(
                            old(self).lines(),
                            (pos.0 as int, pos.1 as int),
                            char_len as int,
                        ),
                    )
                    &&& head_text(line, pos.0 as int) + span_text(
                        line,
                        pos.0 as int,
                        pos.0 + char_len,
                    ) + tail_text(line, pos.0 + char_len) == line
                    &&& final(self).last_op().deletes(
                        pos,
                        span_text(line, pos.0 as int, pos.0 + char_len),
                        char_len,
                    )
                },
                Err(e) => {
                    &&& e is InvalidPosition
                    &&& (pos.1 >= old(self).lines().len() || pos.0 + char_len > cluster_count(
                        old(self).lines()[pos.1 as int],
                    ))
                    &&& *final(self) == *old(self)
                },
            },
    {
        let (x, y): (usize, usize) = pos;
        if y >= self.content.len() {
            return Err(BufferError::InvalidPosition);
        }
        match line_remove(self.content[y].as_str(), x, char_len) {
            None => Err(BufferError::InvalidPosition),
            Some((rest, removed)) => {
                let ghost before = self.lines();
                self.content[y] = rest;
                proof {
                    assert(self.lines() =~= doc_delete(
                        before,
                        (x as int, y as int),
                        char_len as int,
                    ));
                }
                self.handle_change(EditOp::Delete { pos, text: removed, len: char_len });
                Ok(())
            },
        }
    }

    /// Inserts an empty line so that it becomes line `y`, and records the
    /// change. `y` may be the line count, which appends.
    ///
    /// Fails with `InvalidPosition`, changing nothing, if `y` is greater
    /// than the line count.
    pub fn insert_line(&mut self, y: usize) -> (r: Result<(), BufferError>)
        requires
            old(self).wf(),
        ensures
            final(self).wf(),
            match r {
                Ok(()) => {
                    &&& y <= old(self).lines().len()
                    &&& final(self).changed_from(
                        old(self),
                        old(self).lines().insert(y as int, Seq::empty()),
                    )
                    &&& final(self).last_op().inserts_line(y, Seq::empty())
                },
                Err(e) => {
                    &&& e is InvalidPosition
                    &&& y > old(self).lines().len()
                    &&& *final(self) == *old(self)
                },
            },
    {
        proof {
            reveal_strlit("");
            assert(""@ =~= Seq::<char>::empty());
        }
        self.insert_line_with(y, "")
    }

    /// Inserts a line holding `text` so that it becomes line `y`, and
    /// logs the insertion. `y` may be the line count, which appends.
    ///
    /// Fails with `InvalidPosition`, changing nothing, if `y` is greater
    /// than the line count.
    pub fn insert_line_with(&mut self, y: usize, text: &str) -> (r: Result<(), BufferError>)
        requires
            old(self).wf(),
        ensures
            final(self).wf(),
            match r {
                Ok(()) => {
                    &&& y <= old(self).lines().len()
                    &&& final(self).changed_from(old(self), old(self).lines().insert(y as int, text@))
                    &&& final(self).last_op().inserts_line(y, text@)
                },
                Err(e) => {
                    &&& e is InvalidPosition
                    &&& y > old(self).lines().len()
                    &&& *final(self) == *old(self)
                },
            },
    {
        if y > self.content.len() {
            return Err(BufferError::InvalidPosition);
        }
        let ghost before = self.lines();
        self.content.insert(y, String::from_str(text));
        proof {
            assert(self.lines() =~= before.insert(y as int, text@));
        }
        self.handle_change(EditOp::InsertLine { y, text: String::from_str(text) });
        Ok(())
    }

    /// Removes line `y`, logs the removal and returns the line's text.
    /// The only line of a buffer is emptied instead, so that the buffer
    /// keeps a line.
    ///
    /// Fails with `InvalidPosition`, changing nothing, if there is no line
    /// `y`.
    pub fn delete_line(&mut self, y: usize) -> (r: Result<String, BufferError>)
        requires
            old(self).wf(),
        ensures
            final(self).wf(),
            match r {
                Ok(text) => {
                    &&& y < old(self).lines().len()
                    &&& text@ == old(self).lines()[y as int]
                    &&& final(self).changed_from(
                        old(self),
                        doc_delete_line(old(self).lines(), y as int),
                    )
                    &&& final(self).last_op().deletes_line(y, old(self).lines()[y as int])
                },
                Err(e) => {
                    &&& e is InvalidPosition
                    &&& y >= old(self).lines().len()
                    &&& *final(self) == *old(self)
                },
            },
    {
        if y >= self.content.len() {
            return Err(BufferError::InvalidPosition);
        }
        let ghost before = self.lines();
        let text: String = self.content.remove(y);
        if self.content.len() == 0 {
            self.content.push(String::new());
        }
        proof {
            assert(text@ == before[y as int]);
            assert(self.lines() =~= doc_delete_line(before, y as int));
        }
        self.handle_change(EditOp::DeleteLine { y, text: text.clone() });
        Ok(text)
    }

    /// Cuts line `pos.1` before cluster `pos.0`; the text after the cut
    /// becomes line `pos.1 + 1`. The cut is logged as the insertion of a
    /// line feed.
    ///
    /// Fails with `InvalidPosition`, changing nothing, if there is no line
    /// `pos.1`. No text is lost: the two lines together are the old line.
    pub fn split_line_at(&mut self, pos: (usize, usize)) -> (r: Result<(), BufferError>)
        requires
            old(self).wf(),
        ensures
            final(self).wf(),
            match r {
                Ok(()) => {
                    let line = old(self).lines()[pos.1 as int];
                    &&& pos.1 < old(self).lines().len()
                    &&& final(self).changed_from(
                        old(self),
                        doc_split(old(self).lines(), (pos.0 as int, pos.1 as int)),
                    )
                    &&& final(self).last_op().inserts_block(
                        pos,
                        (0, (pos.1 + 1) as usize),
                        seq!['\n'],
                    )
                    &&& head_text(line, pos.0 as int) + tail_text(line, pos.0 as int) == line
                },
                Err(e) => {
                    &&& e is InvalidPosition
                    &&& pos.1 >= old(self).lines().len()
                    &&& *final(self) == *old(self)
                },
            },
    {
        let (x, y): (usize, usize) = pos;
        if y >= self.content.len() {
            return Err(BufferError::InvalidPosition);
        }
        let (head, tail): (String, String) = line_split(self.content[y].as_str(), x);
        let ghost before = self.lines();
        self.content[y] = head;
        self.content.insert(y + 1, tail);
        proof {
            assert(self.lines() =~= doc_split(before, (x as int, y as int)));
            lemma_split_is_block(before, (x as int, y as int));
            reveal_strlit("\n");
            assert("\n"@ =~= seq!['\n']);
        }
        self.handle_change(
            EditOp::InsertBlock {
                start_pos: pos,
                end_pos: (0, y + 1),
                text: String::from_str("\n"),
            },
        );
        Ok(())
    }

    /// Appends line `y` to line `y - 1` and removes line `y`. The join is
    /// logged as the removal of a line feed.
    ///
    /// Fails with `InvalidPosition`, changing nothing, if `y` is 0 or there
    /// is no line `y`.
    pub fn join_line_with_previous(&mut self, y: usize) -> (r: Result<(), BufferError>)
        requires
            old(self).wf(),
        ensures
            final(self).wf(),
            match r {
                Ok(()) => {
                    &&& 0 < y < old(self).lines().len()
                    &&& final(self).changed_from(old(self), doc_join(old(self).lines(), y as int))
                    &&& final(self).last_op().deletes_block(
                        (cluster_count(old(self).lines()[y - 1]) as usize, (y - 1) as usize),
                        (0, y),
                        seq!['\n'],
                    )
                },
                Err(e) => {
                    &&& e is InvalidPosition
                    &&& (y == 0 || y >= old(self).lines().len())
                    &&& *final(self) == *old(self)
                },
            },
    {
        if y == 0 || y >= self.content.len() {
            return Err(BufferError::InvalidPosition);
        }
        let ghost before = self.lines();
        let prev_len: usize = count_clusters(self.content[y - 1].as_str());
        let moved: String = self.content.remove(y);
        let (_start, rest): (String, String) = line_split(moved.as_str(), 0);
        let mut joined: String = self.content[y - 1].clone();
        joined.append(rest.as_str());
        self.content[y - 1] = joined;
        proof {
            lemma_join_is_block(before, y as int);
            assert(rest@ == before[y as int]);
            assert(self.lines() =~= doc_join(before, y as int));
            reveal_strlit("\n");
            assert("\n"@ =~= seq!['\n']);
        }
        self.handle_change(
            EditOp::DeleteBlock {
                start_pos: (prev_len, y - 1),
                end_pos: (0, y),
                text: String::from_str("\n"),
            },
        );
        Ok(())
    }

    /// Takes back the newest change in effect: the content becomes what it
    /// was before that change, and the change can be redone. Does nothing
    /// when no change is in effect.
    pub fn undo(&mut self)
        requires
            old(self).wf(),
        ensures
            final(self).wf(),
            final(self).history_model() == old(self).history_model().undo(),
            final(self).lines() == old(self).history_model().undo().current(),
            final(self).same_frame(old(self)),
            final(self).saved == (old(self).saved && old(self).history_ptr == 0),
    {
        if self.history_ptr > 0 {
            self.history_ptr = self.history_ptr - 1;
            self.content = arc_vec_to_string(&self.history[self.history_ptr]);
            self.saved = false;
            proof {
                let states = self.history.deep_view();
                assert(states[self.history_ptr as int] == self.lines());
                assert(self.lines().len() == self.content.len());
            }
        }
    }

    /// Brings back the change that was undone last. Does nothing when no
    /// undone change is left.
    pub fn redo(&mut self)
        requires
            old(self).wf(),
        ensures
            final(self).wf(),
            final(self).history_model() == old(self).history_model().redo(),
            final(self).lines() == old(self).history_model().redo().current(),
            final(self).same_frame(old(self)),
            final(self).saved == (old(self).saved && old(self).history_ptr + 1
                >= old(self).history.len()),
    {
        proof {
            assert(self.history.deep_view().len() == self.history.len());
        }
        if self.history_ptr + 1 < self.history.len() {
            self.history_ptr = self.history_ptr + 1;
            self.content = arc_vec_to_string(&self.history[self.history_ptr]);
            self.saved = false;
            proof {
                let states = self.history.deep_view();
                assert(states[self.history_ptr as int] == self.lines());
                assert(self.lines().len() == self.content.len());
            }
        }
    }

    /// Same as [`Buffer::undo`].
    pub fn revoke(&mut self)
        requires
            old(self).wf(),
        ensures
            final(self).wf(),
            final(self).history_model() == old(self).history_model().undo(),
            final(self).lines() == old(self).history_model().undo().current(),
            final(self).same_frame(old(self)),
            final(self).saved == (old(self).saved && old(self).history_ptr == 0),
    {
        self.undo();
    }
}

impl Buffer {
    /// Pulls the buffer's cursor back into the document.
    pub fn check_cursor_pos(&mut self)
        requires
            old(self).wf(),
        ensures
            final(self).cursor() == clamp_cursor(old(self).lines(), old(self).cursor()),
            cursor_valid(final(self).lines(), final(self).cursor()),
            final(self).same_text(old(self)),
            final(self).same_identity(old(self)),
            final(self).scroll_offset == old(self).scroll_offset,
            final(self).scroll_thres == old(self).scroll_thres,
    {
        self.cursor_pos = clamp_pos(&self.content, self.cursor_pos);
    }

    /// Moves the cursor one cluster to the right; from the end of a line,
    /// or from past it, it goes to the start of the next one. A cursor
    /// below the last line is taken to stand on the last line.
    pub fn mv_cursor_right(&mut self)
        requires
            old(self).wf(),
        ensures
            final(self).cursor() == cursor_right(
                old(self).lines(),
                clamp_line(old(self).lines(), old(self).cursor()),
                true,
            ),
            final(self).cursor_pos.1 < final(self).lines().len(),
            final(self).same_text(old(self)),
            final(self).same_identity(old(self)),
            final(self).scroll_offset == old(self).scroll_offset,
            final(self).scroll_thres == old(self).scroll_thres,
    {
        self.cursor_pos = move_right(&self.content, self.cursor_pos, true);
    }

    /// Moves the cursor one cluster to the left; from the start of a line
    /// it goes to the end of the line before. A cursor below the last line
    /// is taken to stand on the last line.
    pub fn mv_cursor_left(&mut self)
        requires
            old(self).wf(),
        ensures
            final(self).cursor() == cursor_left(
                old(self).lines(),
                clamp_line(old(self).lines(), old(self).cursor()),
                true,
            ),
            final(self).cursor_pos.1 < final(self).lines().len(),
            final(self).same_text(old(self)),
            final(self).same_identity(old(self)),
            final(self).scroll_offset == old(self).scroll_offset,
            final(self).scroll_thres == old(self).scroll_thres,
    {
        self.cursor_pos = move_left(&self.content, self.cursor_pos, true);
    }

    /// Moves the cursor one line up. The new column is the old one, or the
    /// length of the line above if that is less. On the first line nothing
    /// changes. A cursor below the last line is taken to stand on the last
    /// line.
    pub fn mv_cursor_up(&mut self)
        requires
            old(self).wf(),
        ensures
            final(self).cursor() == cursor_up(
                old(self).lines(),
                clamp_line(old(self).lines(), old(self).cursor()),
            ),
            final(self).cursor_pos.1 < final(self).lines().len(),
            final(self).same_text(old(self)),
            final(self).same_identity(old(self)),
            final(self).scroll_offset == old(self).scroll_offset,
            final(self).scroll_thres == old(self).scroll_thres,
    {
        self.cursor_pos = move_up(&self.content, self.cursor_pos);
    }

    /// Moves the cursor one line down. The new column is the old one, or
    /// the length of the line below if that is less. On the last line, or
    /// below it, the buffer gets an empty line appended, logs that
    /// insertion, and the cursor goes to the new line.
    pub fn mv_cursor_down(&mut self)
        requires
            old(self).wf(),
        ensures
            final(self).wf(),
            ({
                let c = clamp_line(old(self).lines(), old(self).cursor());
                if c.1 + 1 < old(self).lines().len() {
                    &&& final(self).cursor() == cursor_down(old(self).lines(), c)
                    &&& final(self).same_text(old(self))
                } else {
                    &&& final(self).cursor() == (0int, c.1 + 1)
                    &&& final(self).edited_from(old(self), old(self).lines().push(Seq::empty()))
                }
            }),
            final(self).same_identity(old(self)),
            final(self).scroll_offset == old(self).scroll_offset,
            final(self).scroll_thres == old(self).scroll_thres,
    {
        let (_x, y): (usize, usize) = clamp_line_pos(&self.content, self.cursor_pos);
        if y + 1 < self.content.len() {
            self.cursor_pos = move_down(&self.content, self.cursor_pos);
        } else {
            let at: usize = self.content.len();
            let ghost before = self.lines();
            match self.insert_line(at) {
                Ok(()) => {
                    proof {
                        assert(before.insert(at as int, Seq::empty()) =~= before.push(
                            Seq::empty(),
                        ));
                    }
                    self.cursor_pos = (0, y + 1);
                },
                Err(_) => {
                    assert(false);
                },
            }
        }
    }

    /// Moves the cursor to the end of its line.
    pub fn mv_cursor_tail(&mut self)
        requires
            old(self).wf(),
        ensures
            ({
                let c = clamp_cursor(old(self).lines(), old(self).cursor());
                final(self).cursor() == (cluster_count(old(self).lines()[c.1]) as int, c.1)
            }),
            cursor_valid(final(self).lines(), final(self).cursor()),
            final(self).same_text(old(self)),
            final(self).same_identity(old(self)),
            final(self).scroll_offset == old(self).scroll_offset,
            final(self).scroll_thres == old(self).scroll_thres,
    {
        let (_x, y): (usize, usize) = clamp_pos(&self.content, self.cursor_pos);
        self.cursor_pos = (get_line_len(&self.content[y]), y);
    }

    /// Moves the cursor to the start of its line.
    pub fn mv_cursor_head(&mut self)
        ensures
            final(self).cursor_pos == (0usize, old(self).cursor_pos.1),
            final(self).same_text(old(self)),
            final(self).same_identity(old(self)),
            final(self).scroll_offset == old(self).scroll_offset,
            final(self).scroll_thres == old(self).scroll_thres,
    {
        self.cursor_pos.0 = 0;
    }

    /// Backspace at the cursor. Inside a line it removes the cluster before
    /// the cursor; at the start of a line it joins the line to the one
    /// before; at the start of the document it does nothing. The cursor
    /// ends where the removed cluster or line break was.
    pub fn handle_backspace(&mut self)
        requires
            old(self).wf(),
        ensures
            final(self).wf(),
            ({
                let c = clamp_cursor(old(self).lines(), old(self).cursor());
                if c.0 > 0 {
                    &&& final(self).cursor() == (c.0 - 1, c.1)
                    &&& final(self).edited_from(
                        old(self),
                        doc_delete(old(self).lines(), (c.0 - 1, c.1), 1),
                    )
                } else if c.1 > 0 {
                    &&& final(self).cursor() == (
                        cluster_count(old(self).lines()[c.1 - 1]) as int,
                        c.1 - 1,
                    )
                    &&& final(self).edited_from(old(self), doc_join(old(self).lines(), c.1))
                } else {
                    &&& final(self).cursor() == c
                    &&& final(self).same_text(old(self))
                }
            }),
            final(self).same_identity(old(self)),
            final(self).scroll_offset == old(self).scroll_offset,
            final(self).scroll_thres == old(self).scroll_thres,
    {
        let (x, y): (usize, usize) = clamp_pos(&self.content, self.cursor_pos);
        if x > 0 {
            match self.delete(1, (x - 1, y)) {
                Ok(()) => {
                    self.cursor_pos = (x - 1, y);
                },
                Err(_) => {
                    assert(false);
                },
            }
        } else if y > 0 {
            let prev_len: usize = get_line_len(&self.content[y - 1]);
            match self.join_line_with_previous(y) {
                Ok(()) => {
                    self.cursor_pos = (prev_len, y - 1);
                },
                Err(_) => {
                    assert(false);
                },
            }
        } else {
            self.cursor_pos = (x, y);
        }
    }

    /// Enter at the cursor: cuts the line there and puts the cursor at the
    /// start of the new line.
    pub fn handle_enter(&mut self)
        requires
            old(self).wf(),
        ensures
            final(self).wf(),
            ({
                let c = clamp_cursor(old(self).lines(), old(self).cursor());
                &&& final(self).cursor() == (0int, c.1 + 1)
                &&& final(self).edited_from(old(self), doc_split(old(self).lines(), c))
            }),
            final(self).same_identity(old(self)),
            final(self).scroll_offset == old(self).scroll_offset,
            final(self).scroll_thres == old(self).scroll_thres,
    {
        let (x, y): (usize, usize) = clamp_pos(&self.content, self.cursor_pos);
        match self.split_line_at((x, y)) {
            Ok(()) => {
                self.cursor_pos = (0, y + 1);
            },
            Err(_) => {
                assert(false);
            },
        }
    }

    /// Inserts `add_str` at the cursor; see [`Buffer::insert`].
    pub fn add_content_at(&mut self, add_str: &str) -> (r: Result<(), BufferError>)
        requires
            old(self).wf(),
        ensures
            final(self).wf(),
            match r {
                Ok(()) => {
                    &&& old(self).cursor_pos.1 < old(self).lines().len()
                    &&& final(self).changed_from(
                        old(self),
                        doc_insert(old(self).lines(), old(self).cursor(), add_str@),
                    )
                },
                Err(e) => {
                    &&& e is InvalidPosition
                    &&& old(self).cursor_pos.1 >= old(self).lines().len()
                    &&& *final(self) == *old(self)
                },
            },
    {
        let pos: (usize, usize) = self.cursor_pos;
        self.insert(add_str, pos)
    }

    /// Removes `len_in_chars` clusters from the cursor on; see
    /// [`Buffer::delete`].
    pub fn delete_content_at(&mut self, len_in_chars: usize) -> (r: Result<(), BufferError>)
        requires
            old(self).wf(),
        ensures
            final(self).wf(),
            match r {
                Ok(()) => {
                    &&& old(self).cursor_pos.1 < old(self).lines().len()
                    &&& old(self).cursor_pos.0 + len_in_chars <= cluster_count(
                        old(self).lines()[old(self).cursor().1],
                    )
                    &&& final(self).changed_from(
                        old(self),
                        doc_delete(old(self).lines(), old(self).cursor(), len_in_chars as int),
                    )
                },
                Err(e) => {
                    &&& e is InvalidPosition
                    &&& (old(self).cursor_pos.1 >= old(self).lines().len()
                        || old(self).cursor_pos.0 + len_in_chars > cluster_count(
                        old(self).lines()[old(self).cursor().1],
                    ))
                    &&& *final(self) == *old(self)
                },
            },
    {
        let pos: (usize, usize) = self.cursor_pos;
        self.delete(len_in_chars, pos)
    }

    /// Replaces `len_in_chars` clusters from the cursor on by
    /// `replace_str`: removes the clusters, then inserts the text at the
    /// same cluster index of what is left. Both edits are logged, the
    /// removal first.
    ///
    /// Fails with `InvalidPosition`, changing nothing, if the cursor's line
    /// does not exist or has fewer than that many clusters from the cursor
    /// on.
    pub fn change_content_at(&mut self, len_in_chars: usize, replace_str: &str) -> (r: Result<
        (),
        BufferError,
    >)
        requires
            old(self).wf(),
        ensures
            final(self).wf(),
            match r {
                Ok(()) => {
                    let c = old(self).cursor();
                    let line = old(self).lines()[c.1];
                    let cut = doc_delete(old(self).lines(), c, len_in_chars as int);
                    let h = final(self).history_model();
                    let p = old(self).history_ptr as int;
                    &&& c.1 < old(self).lines().len()
                    &&& c.0 + len_in_chars <= cluster_count(line)
                    &&& final(self).lines() == doc_insert(cut, c, replace_str@)
                    &&& h == old(self).history_model().record(h.ops[p], cut).record(
                        h.ops[p + 1],
                        final(self).lines(),
                    )
                    &&& h.ops[p].deletes(
                        old(self).cursor_pos,
                        span_text(line, c.0, c.0 + len_in_chars),
                        len_in_chars,
                    )
                    &&& h.ops[p + 1].inserts(old(self).cursor_pos, replace_str@)
                    &&& !final(self).saved
                    &&& final(self).same_frame(old(self))
                },
                Err(e) => {
                    &&& e is InvalidPosition
                    &&& (old(self).cursor_pos.1 >= old(self).lines().len()
                        || old(self).cursor_pos.0 + len_in_chars > cluster_count(
                        old(self).lines()[old(self).cursor().1],
                    ))
                    &&& *final(self) == *old(self)
                },
            },
    {
        let pos: (usize, usize) = self.cursor_pos;
        match self.delete(len_in_chars, pos) {
            Ok(()) => {},
            Err(e) => {
                return Err(e);
            },
        }
        let ghost mid = *self;
        match self.insert(replace_str, pos) {
            Ok(()) => {},
            Err(_) => {
                assert(false);
            },
        }
        proof {
            let p = old(self).history_ptr as int;
            let h0 = old(self).history_model();
            let h1 = mid.history_model();
            let h2 = self.history_model();
            assert(h1.ops[p] == mid.last_op());
            assert(h2.ops[p] == h1.ops[p]);
            assert(h2.ops[p + 1] == self.last_op());
        }
        Ok(())
    }

    /// Inserts an empty line at the cursor's line; see
    /// [`Buffer::insert_line`].
    pub fn add_new_line(&mut self) -> (r: Result<(), BufferError>)
        requires
            old(self).wf(),
        ensures
            final(self).wf(),
            match r {
                Ok(()) => {
                    &&& old(self).cursor_pos.1 <= old(self).lines().len()
                    &&& final(self).changed_from(
                        old(self),
                        old(self).lines().insert(old(self).cursor().1, Seq::empty()),
                    )
                },
                Err(e) => {
                    &&& e is InvalidPosition
                    &&& old(self).cursor_pos.1 > old(self).lines().len()
                    &&& *final(self) == *old(self)
                },
            },
    {
        let y: usize = self.cursor_pos.1;
        self.insert_line(y)
    }

    /// Pulls the cursor back into the document and moves the scroll offset
    /// so that the cursor lies inside a viewport of `viewport_width`
    /// columns and `viewport_height` rows, with the buffer's margins; see
    /// [`scroll_axis`]. On an axis whose viewport is larger than its
    /// margin the cursor is then visible, with the margin in full between
    /// it and the far edge.
    pub fn update_scroll(&mut self, viewport_height: usize, viewport_width: usize)
        requires
            old(self).wf(),
        ensures
            final(self).cursor() == clamp_cursor(old(self).lines(), old(self).cursor()),
            cursor_in_view(
                final(self).cursor(),
                (viewport_width as int, viewport_height as int),
                pos_int(old(self).scroll_thres),
                pos_int(final(self).scroll_offset),
            ),
            final(self).scroll_offset.0 == scroll_axis(
                final(self).cursor().0,
                viewport_width as int,
                old(self).scroll_thres.0 as int,
                old(self).scroll_offset.0 as int,
            ),
            final(self).scroll_offset.1 == scroll_axis(
                final(self).cursor().1,
                viewport_height as int,
                old(self).scroll_thres.1 as int,
                old(self).scroll_offset.1 as int,
            ),
            final(self).same_text(old(self)),
            final(self).same_identity(old(self)),
            final(self).scroll_thres == old(self).scroll_thres,
    {
        self.cursor_pos = clamp_pos(&self.content, self.cursor_pos);
        self.scroll_offset = compute_scroll(
            self.cursor_pos,
            (viewport_width, viewport_height),
            self.scroll_thres,
            self.scroll_offset,
        );
    }

    /// Display column at which cluster `char_idx` of line `line_idx`
    /// starts: the summed display widths of the clusters before it.
    pub fn get_visual_width_upto(&self, line_idx: usize, char_idx: usize) -> (r: usize)
        requires
            line_idx < self.lines().len(),
            visual_width(self.lines()[line_idx as int], char_idx as int) <= usize::MAX,
        ensures
            r == visual_width(self.lines()[line_idx as int], char_idx as int),
    {
        width_upto(self.content[line_idx].as_str(), char_idx)
    }

    /// [`Buffer::get_visual_width_upto`] for any arguments: `None` if there
    /// is no line `line_idx` or the column does not fit a `usize`.
    pub fn checked_visual_width_upto(&self, line_idx: usize, char_idx: usize) -> (r: Option<
        usize,
    >)
        ensures
            match r {
                Some(w) => line_idx < self.lines().len() && w == visual_width(
                    self.lines()[line_idx as int],
                    char_idx as int,
                ),
                None => line_idx >= self.lines().len() || visual_width(
                    self.lines()[line_idx as int],
                    char_idx as int,
                ) > usize::MAX,
            },
    {
        if line_idx >= self.content.len() {
            return None;
        }
        match checked_width_upto(self.content[line_idx].as_str(), char_idx) {
            Some(_) => Some(self.get_visual_width_upto(line_idx, char_idx)),
            None => None,
        }
    }

    /// Display width of line `line_idx` in terminal columns.
    pub fn get_line_visual_width(&self, line_idx: usize) -> (r: usize)
        requires
            line_idx < self.lines().len(),
        ensures
            r == display_width(self.lines()[line_idx as int]),
    {
        str_width(self.content[line_idx].as_str())
    }
}

impl Buffer {
    /// Inserts `text` at `pos` and logs the insertion. Every line feed in
    /// `text` starts a new line: the text's first piece joins what stands
    /// before the position, and its last piece joins what stands after it.
    ///
    /// Fails with `InvalidPosition`, changing nothing, if there is no line
    /// `pos.1`.
    pub fn insert_block(&mut self, text: &str, pos: (usize, usize)) -> (r: Result<(), BufferError>)
        requires
            old(self).wf(),
        ensures
            final(self).wf(),
            match r {
                Ok(()) => {
                    let line = old(self).lines()[pos.1 as int];
                    &&& pos.1 < old(self).lines().len()
                    &&& final(self).changed_from(
                        old(self),
                        doc_insert_block(old(self).lines(), pos_int(pos), text@),
                    )
                    &&& final(self).last_op().inserts_block(
                        pos,
                        (
                            saturate(block_end(old(self).lines(), pos_int(pos), text@).0),
                            block_end(old(self).lines(), pos_int(pos), text@).1 as usize,
                        ),
                        text@,
                    )
                    &&& head_text(line, pos.0 as int) + tail_text(line, pos.0 as int) == line
                },
                Err(e) => {
                    &&& e is InvalidPosition
                    &&& pos.1 >= old(self).lines().len()
                    &&& *final(self) == *old(self)
                },
            },
    {
        let (x, y): (usize, usize) = pos;
        if y >= self.content.len() {
            return Err(BufferError::InvalidPosition);
        }
        let pieces: Vec<String> = split_text(text);
        let (head, tail): (String, String) = line_split(self.content[y].as_str(), x);
        let k: usize = pieces.len() - 1;
        let ghost before = self.lines();
        let ghost parts = pieces.deep_view();
        let line_len: usize = count_clusters(self.content[y].as_str());
        let last_len: usize = count_clusters(pieces[k].as_str());
        let end_x: usize = if k == 0 {
            let at: usize = if x < line_len {
                x
            } else {
                line_len
            };
            at.saturating_add(last_len)
        } else {
            last_len
        };
        proof {
            assert(parts[k as int] == pieces[k as int]@);
            assert(parts.last() == parts[k as int]);
        }
        if k == 0 {
            let mut line: String = head;
            line.append(pieces[0].as_str());
            line.append(tail.as_str());
            self.content[y] = line;
            proof {
                assert(self.lines() =~= doc_insert_block(before, pos_int(pos), text@));
            }
        } else {
            let mut first: String = head;
            first.append(pieces[0].as_str());
            let mut last: String = pieces[k].clone();
            last.append(tail.as_str());
            let ghost first_text = first@;
            self.content[y] = first;
            let mut i: usize = 1;
            proof {
                assert(self.lines() =~= before.take(y as int).push(first_text) + parts.subrange(
                    1,
                    1,
                ) + before.skip(y + 1));
            }
            while i < k
                invariant
                    1 <= i <= k,
                    k == pieces.len() - 1,
                    y < before.len(),
                    parts == pieces.deep_view(),
                    self.content.len() == before.len() + i - 1,
                    self.lines() == before.take(y as int).push(first_text) + parts.subrange(
                        1,
                        i as int,
                    ) + before.skip(y + 1),
                    self.id == old(self).id,
                    self.name == old(self).name,
                    self.path == old(self).path,
                    self.file_info == old(self).file_info,
                    self.cursor_pos == old(self).cursor_pos,
                    self.scroll_offset == old(self).scroll_offset,
                    self.scroll_thres == old(self).scroll_thres,
                    self.history == old(self).history,
                    self.undo_log == old(self).undo_log,
                    self.history_ptr == old(self).history_ptr,
                decreases k - i,
            {
                let ghost was = self.lines();
                self.content.insert(y + i, pieces[i].clone());
                proof {
                    assert(self.lines() =~= was.insert(y + i, parts[i as int]));
                    assert(self.lines() =~= before.take(y as int).push(first_text)
                        + parts.subrange(1, i + 1) + before.skip(y + 1));
                }
                i = i + 1;
            }
            let ghost was = self.lines();
            let ghost last_text = last@;
            self.content.insert(y + k, last);
            proof {
                assert(self.lines() =~= was.insert(y + k, last_text));
                assert(self.lines() =~= doc_insert_block(before, pos_int(pos), text@));
            }
        }
        proof {
            assert(self.lines().len() == self.content.len());
            assert(y + k < self.content.len());
        }
        self.handle_change(
            EditOp::InsertBlock {
                start_pos: pos,
                end_pos: (end_x, y + k),
                text: String::from_str(text),
            },
        );
        Ok(())
    }

    /// Removes the text between `start` and `end`, logs the removal and
    /// returns the removed text, with a line feed for every line break
    /// that was in it. What stood before `start` on its line is joined to
    /// what stood from `end` on on its line.
    ///
    /// Fails with `InvalidPosition`, changing nothing, unless both
    /// positions lie in the document, on cluster boundaries, with `start`
    /// not behind `end`.
    pub fn delete_block(&mut self, start: (usize, usize), end: (usize, usize)) -> (r: Result<
        String,
        BufferError,
    >)
        requires
            old(self).wf(),
        ensures
            final(self).wf(),
            match r {
                Ok(text) => {
                    &&& block_valid(old(self).lines(), pos_int(start), pos_int(end))
                    &&& text@ == block_text(old(self).lines(), pos_int(start), pos_int(end))
                    &&& final(self).changed_from(
                        old(self),
                        doc_delete_block(old(self).lines(), pos_int(start), pos_int(end)),
                    )
                    &&& final(self).last_op().deletes_block(start, end, text@)
                },
                Err(e) => {
                    &&& e is InvalidPosition
                    &&& !block_valid(old(self).lines(), pos_int(start), pos_int(end))
                    &&& *final(self) == *old(self)
                },
            },
    {
        let (x1, y1): (usize, usize) = start;
        let (x2, y2): (usize, usize) = end;
        if y1 > y2 || y2 >= self.content.len() {
            return Err(BufferError::InvalidPosition);
        }
        if x1 > get_line_len(&self.content[y1]) || x2 > get_line_len(&self.content[y2]) {
            return Err(BufferError::InvalidPosition);
        }
        if y1 == y2 && x1 > x2 {
            return Err(BufferError::InvalidPosition);
        }
        let ghost before = self.lines();
        let text: String = if y1 == y2 {
            match line_remove(self.content[y1].as_str(), x1, x2 - x1) {
                Some((rest, removed)) => {
                    self.content[y1] = rest;
                    proof {
                        assert(self.lines() =~= doc_delete_block(
                            before,
                            pos_int(start),
                            pos_int(end),
                        ));
                    }
                    removed
                },
                None => {
                    proof {
                        assert(false);
                    }
                    String::new()
                },
            }
        } else {
            let (head, rest_first): (String, String) = line_split(self.content[y1].as_str(), x1);
            let (head_last, tail): (String, String) = line_split(self.content[y2].as_str(), x2);
            let mut parts: Vec<String> = Vec::new();
            let ghost first_text = rest_first@;
            parts.push(rest_first);
            let mut i: usize = y1 + 1;
            proof {
                assert(parts.deep_view() =~= seq![first_text] + before.subrange(y1 + 1, y1 + 1));
            }
            while i < y2
                invariant
                    y1 < i <= y2 < self.content.len(),
                    before == self.lines(),
                    parts.deep_view() == seq![first_text] + before.subrange(y1 + 1, i as int),
                decreases y2 - i,
            {
                let ghost was = parts.deep_view();
                parts.push(self.content[i].clone());
                proof {
                    assert(parts.deep_view() =~= was.push(before[i as int]));
                    assert(parts.deep_view() =~= seq![first_text] + before.subrange(
                        y1 + 1,
                        i + 1,
                    ));
                }
                i = i + 1;
            }
            let ghost was = parts.deep_view();
            let ghost last_text = head_last@;
            parts.push(head_last);
            proof {
                assert(parts.deep_view() =~= was.push(last_text));
                assert(parts.deep_view() =~= seq![first_text] + before.subrange(
                    y1 + 1,
                    y2 as int,
                ) + seq![last_text]);
            }
            let removed: String = join_text(&parts);
            let mut joined: String = head;
            joined.append(tail.as_str());
            let ghost joined_text = joined@;
            self.content[y1] = joined;
            let mut n: usize = y2 - y1;
            proof {
                assert(self.lines() =~= before.take(y1 as int).push(joined_text) + before.skip(
                    y1 + 1,
                ));
            }
            while n > 0
                invariant
                    n <= y2 - y1,
                    y2 < before.len(),
                    self.content.len() == before.len() - (y2 - y1 - n),
                    self.lines() == before.take(y1 as int).push(joined_text) + before.skip(
                        y2 + 1 - n,
                    ),
                    self.id == old(self).id,
                    self.name == old(self).name,
                    self.path == old(self).path,
                    self.file_info == old(self).file_info,
                    self.cursor_pos == old(self).cursor_pos,
                    self.scroll_offset == old(self).scroll_offset,
                    self.scroll_thres == old(self).scroll_thres,
                    self.history == old(self).history,
                    self.undo_log == old(self).undo_log,
                    self.history_ptr == old(self).history_ptr,
                decreases n,
            {
                let ghost was = self.lines();
                self.content.remove(y1 + 1);
                proof {
                    assert(self.lines() =~= was.remove(y1 + 1));
                    assert(self.lines() =~= before.take(y1 as int).push(joined_text)
                        + before.skip(y2 + 1 - (n - 1)));
                }
                n = n - 1;
            }
            removed
        };
        self.handle_change(EditOp::DeleteBlock { start_pos: start, end_pos: end, text: text.clone() });
        Ok(text)
    }

    /// Applies `op` to the document and logs the edit. The logged edit is
    /// `op` with the text that it really removed and, for a block that it
    /// inserted, the place where the block really ends.
    ///
    /// Fails with `InvalidPosition`, changing nothing, where `op` does not
    /// fit the document; see [`apply_spec`].
    pub fn apply_op(&mut self, op: &EditOp) -> (r: Result<(), BufferError>)
        requires
            old(self).wf(),
        ensures
            final(self).wf(),
            match r {
                Ok(()) => {
                    let before = old(self).lines();
                    let logged = final(self).last_op();
                    &&& apply_spec(before, *op) matches Some(lines)
                    &&& final(self).changed_from(old(self), lines)
                    &&& match *op {
                        EditOp::Insert { pos, text, .. } => logged.inserts(pos, text@),
                        EditOp::Delete { pos, len, .. } => logged.deletes(
                            pos,
                            span_text(before[pos.1 as int], pos.0 as int, pos.0 + len),
                            len,
                        ),
                        EditOp::InsertLine { y, text } => logged.inserts_line(y, text@),
                        EditOp::DeleteLine { y, .. } => logged.deletes_line(y, before[y as int]),
                        EditOp::InsertBlock { start_pos, text, .. } => logged.inserts_block(
                            start_pos,
                            (
                                saturate(block_end(before, pos_int(start_pos), text@).0),
                                block_end(before, pos_int(start_pos), text@).1 as usize,
                            ),
                            text@,
                        ),
                        EditOp::DeleteBlock { start_pos, end_pos, .. } => logged.deletes_block(
                            start_pos,
                            end_pos,
                            block_text(before, pos_int(start_pos), pos_int(end_pos)),
                        ),
                    }
                },
                Err(e) => {
                    &&& e is InvalidPosition
                    &&& apply_spec(old(self).lines(), *op) is None
                    &&& *final(self) == *old(self)
                },
            },
    {
        match op {
            EditOp::Insert { pos, text, .. } => self.insert(text.as_str(), *pos),
            EditOp::Delete { pos, len, .. } => self.delete(*len, *pos),
            EditOp::InsertLine { y, text } => self.insert_line_with(*y, text.as_str()),
            EditOp::DeleteLine { y, .. } => {
                match self.delete_line(*y) {
                    Ok(_) => Ok(()),
                    Err(e) => Err(e),
                }
            },
            EditOp::InsertBlock { start_pos, text, .. } => self.insert_block(
                text.as_str(),
                *start_pos,
            ),
            EditOp::DeleteBlock { start_pos, end_pos, .. } => {
                match self.delete_block(*start_pos, *end_pos) {
                    Ok(_) => Ok(()),
                    Err(e) => Err(e),
                }
            },
        }
    }
}

/// A well-formed buffer has a line, whatever was done to it: every
/// operation of the buffer asks for a well-formed buffer and leaves one,
/// and undo and redo lead to contents that have a line too.
pub proof fn lemma_never_empty(b: Buffer)
    requires
        b.wf(),
    ensures
        b.lines().len() >= 1,
        b.content.len() >= 1,
        b.history_model().undo().current().len() >= 1,
        b.history_model().redo().current().len() >= 1,
{
}

/// For a well-formed buffer, `n` calls of `undo` followed by `n` calls of
/// `redo` give back the content that the buffer has, for every `n` up to
/// the number of edits in effect.
pub proof fn lemma_undo_redo(b: Buffer, n: nat)
    requires
        b.wf(),
        n <= b.history_ptr,
    ensures
        b.history_model().undo_n(n).redo_n(n) == b.history_model(),
        b.history_model().undo_n(n).redo_n(n).current() == b.lines(),
{
    crate::history::lemma_undo_redo_inverse(b.history_model(), n);
}

/// A request to write `text` to the file at `path`.
pub struct SaveRequest {
    pub path: String,
    pub text: String,
}

/// What was found at a path that a buffer is to be loaded from.
pub enum FileProbe {
    /// The path does not name a regular file.
    NotAFile,
    /// The file could not be read.
    Unreadable(std::io::Error),
    /// The file's text and metadata.
    Loaded { text: String, size: u64, read_only: bool },
}

/// The line-ending convention of `text`.
pub open spec fn format_of(text: Seq<char>) -> FileFormat {
    if has_crlf(text) {
        FileFormat::DOS
    } else {
        FileFormat::UNIX
    }
}

impl Buffer {
    /// The document as one text: its lines joined by line feeds.
    pub fn text(&self) -> (r: String)
        ensures
            r@ == join_lines(self.lines()),
    {
        join_text(&self.content)
    }

    /// Builds a buffer from what was found at `path`, to be shown under
    /// `name`.
    ///
    /// Gives `NotAFile` for a path that is no regular file and `IOError`,
    /// wrapping the cause, for a file that could not be read. Otherwise the
    /// buffer holds the file's lines, is bound to `path`, counts as saved,
    /// has nothing to undo, and its file information holds the given
    /// metadata and the text's line-ending convention.
    pub fn from_file(path: &str, name: &str, probe: FileProbe) -> (r: Result<Self, BufferError>)
        ensures
            match probe {
                FileProbe::NotAFile => r matches Err(e) && e is NotAFile,
                FileProbe::Unreadable(cause) => r matches Err(e) && e == BufferError::IOError(
                    cause,
                ),
                FileProbe::Loaded { text, size, read_only } => {
                    &&& r matches Ok(b)
                    &&& b.wf()
                    &&& b.lines() == file_lines(text@)
                    &&& b.history_model() == History::start(b.lines())
                    &&& b.name@ == name@
                    &&& b.id == 0
                    &&& b.path matches Some(p)
                    &&& p@ == path@
                    &&& b.cursor_pos == (0usize, 0usize)
                    &&& b.scroll_offset == (0usize, 0usize)
                    &&& b.scroll_thres == (0usize, 0usize)
                    &&& b.file_info == Some(
                        FileInfo { size, read_only, format: format_of(text@) },
                    )
                    &&& b.saved
                },
            },
    {
        match probe {
            FileProbe::NotAFile => Err(BufferError::NotAFile),
            FileProbe::Unreadable(cause) => Err(BufferError::IOError(cause)),
            FileProbe::Loaded { text, size, read_only } => {
                let lines: Vec<String> = load_lines(text.as_str());
                let first: Vec<String> = arc_vec_to_string(&lines);
                let mut history: Vec<Vec<String>> = Vec::new();
                history.push(first);
                let b = Self {
                    id: 0,
                    content: lines,
                    history,
                    undo_log: Vec::new(),
                    history_ptr: 0,
                    name: String::from_str(name),
                    path: Some(String::from_str(path)),
                    cursor_pos: (0, 0),
                    scroll_offset: (0, 0),
                    scroll_thres: (0, 0),
                    file_info: Some(
                        FileInfo { size, read_only, format: detect_line_ending(text.as_str()) },
                    ),
                    saved: true,
                };
                proof {
                    assert(b.history.deep_view() =~= seq![b.lines()]);
                }
                Ok(b)
            },
        }
    }

    /// What saving the buffer to its bound file has to write. Fails with
    /// `InvalidPath` if no file is bound.
    pub fn save(&self) -> (r: Result<SaveRequest, BufferError>)
        ensures
            match r {
                Ok(req) => {
                    &&& self.path matches Some(p)
                    &&& req.path@ == p@
                    &&& req.text@ == join_lines(self.lines())
                },
                Err(e) => e is InvalidPath && self.path is None,
            },
    {
        match &self.path {
            Some(p) => Ok(SaveRequest { path: p.clone(), text: self.text() }),
            None => Err(BufferError::InvalidPath),
        }
    }

    /// What saving the buffer to `path` has to write.
    pub fn save_to(&self, path: &str) -> (r: SaveRequest)
        ensures
            r.path@ == path@,
            r.text@ == join_lines(self.lines()),
    {
        SaveRequest { path: String::from_str(path), text: self.text() }
    }

    /// Takes new metadata of the bound file. The line-ending convention is
    /// that of the document as it is written out.
    pub fn refresh_file_info(&mut self, size: u64, read_only: bool)
        ensures
            final(self).file_info == Some(
                FileInfo { size, read_only, format: format_of(join_lines(old(self).lines())) },
            ),
            final(self).id == old(self).id,
            final(self).name == old(self).name,
            final(self).path == old(self).path,
            final(self).same_text(old(self)),
            final(self).cursor_pos == old(self).cursor_pos,
            final(self).scroll_offset == old(self).scroll_offset,
            final(self).scroll_thres == old(self).scroll_thres,
    {
        let text: String = self.text();
        self.file_info = Some(
            FileInfo { size, read_only, format: detect_line_ending(text.as_str()) },
        );
    }

    /// Records that the document was written to `path`. A buffer without a
    /// bound file becomes bound to `path` and takes `name`, where one is
    /// given; a bound buffer keeps its path and name. The file information
    /// is refreshed from `size` and `read_only`, and the buffer counts as
    /// saved.
    pub fn finish_save(&mut self, path: &str, name: Option<&str>, size: u64, read_only: bool)
        ensures
            final(self).saved,
            final(self).file_info == Some(
                FileInfo { size, read_only, format: format_of(join_lines(old(self).lines())) },
            ),
            match old(self).path {
                Some(p) => final(self).path == Some(p) && final(self).name == old(self).name,
                None => {
                    &&& final(self).path matches Some(p)
                    &&& p@ == path@
                    &&& match name {
                        Some(n) => final(self).name@ == n@,
                        None => final(self).name == old(self).name,
                    }
                },
            },
            final(self).id == old(self).id,
            final(self).content == old(self).content,
            final(self).history == old(self).history,
            final(self).undo_log == old(self).undo_log,
            final(self).history_ptr == old(self).history_ptr,
            final(self).cursor_pos == old(self).cursor_pos,
            final(self).scroll_offset == old(self).scroll_offset,
            final(self).scroll_thres == old(self).scroll_thres,
    {
        if self.path.is_none() {
            self.path = Some(String::from_str(path));
            match name {
                Some(n) => {
                    self.name = String::from_str(n);
                },
                None => {},
            }
        }
        self.refresh_file_info(size, read_only);
        self.saved = true;
    }
}

} // verus!
