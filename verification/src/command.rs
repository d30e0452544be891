//! The operations that a key binding or a typed command can ask for. Each
//! works on the focused pane and the buffer it shows.

use crate::buffer::{Buffer, SaveRequest};
use crate::document::{
    block_text, doc_delete, doc_delete_block, doc_delete_line, doc_insert, doc_insert_block,
    doc_join, doc_split,
};
use crate::buffer_manager::{lemma_replace_keeps_wf, BufferManager};
use crate::cursor::{
    clamp_cursor, clamp_line, clamp_pos, cursor_down, cursor_left, cursor_right, cursor_up, pos_int,
};
use crate::grapheme::cluster_count;
use crate::lines::join_text;
use crate::error::{BufferError, LayoutError};
use crate::layout::layout_manager::LayoutManager;
use crate::layout::rect::MoveDir;
use crate::layout::tree::{LayoutNode, SplitDirection};
use crate::lines::join_lines;
use crate::screen::Screen;
use vstd::prelude::*;

verus! {

/// Makes an empty buffer named `name` and shows it in the focused pane, if
/// a pane is open. Returns the buffer's id.
pub fn create_new_buffer(bm: &mut BufferManager, lm: &mut LayoutManager, name: &str) -> (id: usize)
    requires
        old(bm).wf(),
        old(bm).next_id < usize::MAX,
        old(lm).wf(),
    ensures
        final(bm).wf(),
        final(lm).wf(),
        id == old(bm).next_id,
        final(bm).has_id(id),
        final(bm).buffer(id).lines() == seq![Seq::<char>::empty()],
        final(bm).buffer(id).name@ == name@,
        final(bm).buffers@.drop_last() == old(bm).buffers@,
        match old(lm).focused() {
            Some(p) => {
                &&& final(lm).focused() == Some(p.with_buffer(id))
                &&& final(lm).focused_replaced(old(lm), p.with_buffer(id))
            },
            None => *final(lm) == *old(lm),
        },
{
    let id: usize = bm.add_new_buffer(name);
    proof {
        if old(lm).panes is Some {
            crate::layout::tree::lemma_find(old(lm).panes->0, old(lm).current_layout);
        }
    }
    match lm.change_current_buffer_id(id) {
        Ok(()) => {},
        Err(_) => {},
    }
    id
}

/// Moves the cursor of the focused pane one cluster to the right. At the
/// end of a line, or past it, the cursor goes on to the next line only in
/// free mode.
///
/// Fails as [`LayoutManager::get_current_buffer`] does, changing nothing.
pub fn mv_cursor_right(bm: &mut BufferManager, lm: &mut LayoutManager) -> (r: Result<(), LayoutError>)
    requires
        old(lm).wf(),
        old(bm).wf(),
    ensures
        final(lm).wf(),
        *final(bm) == *old(bm),
        match r {
            Ok(()) => {
                let lines = old(lm).focused_buffer(old(bm)).lines();
                &&& old(lm).focus_ready(old(bm))
                &&& final(lm).cursor_moved(
                    old(lm),
                    cursor_right(
                        lines,
                        clamp_line(lines, pos_int(old(lm).focused()->0->cursor_pos)),
                        old(lm).free_mode,
                    ),
                )
            },
            Err(e) => {
                &&& !old(lm).focus_ready(old(bm))
                &&& old(lm).is_focus_error(old(bm), e)
                &&& *final(lm) == *old(lm)
            },
        },
{
    lm.mv_cursor_right(bm)
}

/// Moves the cursor of the focused pane one cluster to the left. At the
/// start of a line the cursor goes back to the line before only in free
/// mode.
///
/// Fails as [`LayoutManager::get_current_buffer`] does, changing nothing.
pub fn mv_cursor_left(bm: &mut BufferManager, lm: &mut LayoutManager) -> (r: Result<(), LayoutError>)
    requires
        old(lm).wf(),
        old(bm).wf(),
    ensures
        final(lm).wf(),
        *final(bm) == *old(bm),
        match r {
            Ok(()) => {
                let lines = old(lm).focused_buffer(old(bm)).lines();
                &&& old(lm).focus_ready(old(bm))
                &&& final(lm).cursor_moved(
                    old(lm),
                    cursor_left(
                        lines,
                        clamp_line(lines, pos_int(old(lm).focused()->0->cursor_pos)),
                        old(lm).free_mode,
                    ),
                )
            },
            Err(e) => {
                &&& !old(lm).focus_ready(old(bm))
                &&& old(lm).is_focus_error(old(bm), e)
                &&& *final(lm) == *old(lm)
            },
        },
{
    lm.mv_cursor_left(bm)
}

/// Moves the cursor of the focused pane one line up. The new column is the
/// old one, or the length of the line above if that is less.
///
/// Fails as [`LayoutManager::get_current_buffer`] does, changing nothing.
pub fn mv_cursor_up(bm: &mut BufferManager, lm: &mut LayoutManager) -> (r: Result<(), LayoutError>)
    requires
        old(lm).wf(),
        old(bm).wf(),
    ensures
        final(lm).wf(),
        *final(bm) == *old(bm),
        match r {
            Ok(()) => {
                let lines = old(lm).focused_buffer(old(bm)).lines();
                &&& old(lm).focus_ready(old(bm))
                &&& final(lm).cursor_moved(
                    old(lm),
                    cursor_up(
                        lines,
                        clamp_line(lines, pos_int(old(lm).focused()->0->cursor_pos)),
                    ),
                )
            },
            Err(e) => {
                &&& !old(lm).focus_ready(old(bm))
                &&& old(lm).is_focus_error(old(bm), e)
                &&& *final(lm) == *old(lm)
            },
        },
{
    lm.mv_cursor_up(bm)
}

/// Moves the cursor of the focused pane one line down. The new column is
/// the old one, or the length of the line below if that is less. On the
/// last line the cursor stays, unless free mode is on: then an empty line
/// is appended to the buffer, as a logged edit, and the cursor goes to it.
///
/// Fails as [`LayoutManager::get_current_buffer`] does, changing nothing.
pub fn mv_cursor_down(bm: &mut BufferManager, lm: &mut LayoutManager) -> (r: Result<(), LayoutError>)
    requires
        old(lm).wf(),
        old(bm).wf(),
    ensures
        final(lm).wf(),
        final(bm).wf(),
        match r {
            Ok(()) => {
                let lines = old(lm).focused_buffer(old(bm)).lines();
                let c = clamp_line(lines, pos_int(old(lm).focused()->0->cursor_pos));
                &&& old(lm).focus_ready(old(bm))
                &&& if c.1 + 1 < lines.len() || !old(lm).free_mode {
                    &&& final(lm).cursor_moved(old(lm), cursor_down(lines, c))
                    &&& *final(bm) == *old(bm)
                } else {
                    &&& final(lm).cursor_moved(old(lm), (0int, c.1 + 1))
                    &&& final(bm).buffer_edited(
                        old(bm),
                        old(lm).focused()->0->buffer_id,
                        lines.push(Seq::empty()),
                    )
                }
            },
            Err(e) => {
                &&& !old(lm).focus_ready(old(bm))
                &&& old(lm).is_focus_error(old(bm), e)
                &&& *final(lm) == *old(lm)
                &&& *final(bm) == *old(bm)
            },
        },
{
    lm.mv_cursor_down(bm)
}

/// Moves the cursor of the focused pane to the start of its line.
///
/// Fails with `PaneNotFound`, changing nothing, if no pane is open.
pub fn mv_cursor_head(lm: &mut LayoutManager) -> (r: Result<(), LayoutError>)
    requires
        old(lm).wf(),
    ensures
        final(lm).wf(),
        match r {
            Ok(()) => {
                &&& old(lm).focused() matches Some(p)
                &&& final(lm).cursor_moved(old(lm), (0int, p->cursor_pos.1 as int))
            },
            Err(e) => e is PaneNotFound && old(lm).panes is None && *final(lm) == *old(lm),
        },
{
    lm.mv_cursor_head()
}

/// Moves the cursor of the focused pane to the end of its line.
///
/// Fails as [`LayoutManager::get_current_buffer`] does, changing nothing.
pub fn mv_cursor_tail(bm: &mut BufferManager, lm: &mut LayoutManager) -> (r: Result<(), LayoutError>)
    requires
        old(lm).wf(),
        old(bm).wf(),
    ensures
        final(lm).wf(),
        *final(bm) == *old(bm),
        match r {
            Ok(()) => {
                let lines = old(lm).focused_buffer(old(bm)).lines();
                let c = clamp_cursor(lines, pos_int(old(lm).focused()->0->cursor_pos));
                &&& old(lm).focus_ready(old(bm))
                &&& final(lm).cursor_moved(
                    old(lm),
                    (cluster_count(lines[c.1]) as int, c.1),
                )
            },
            Err(e) => {
                &&& !old(lm).focus_ready(old(bm))
                &&& old(lm).is_focus_error(old(bm), e)
                &&& *final(lm) == *old(lm)
            },
        },
{
    lm.mv_cursor_tail(bm)
}

/// Backspace in the focused pane: removes the cluster before the cursor,
/// or joins the line to the one before where the cursor stands at the
/// start of a line.
///
/// Fails as [`LayoutManager::get_current_buffer`] does, changing nothing.
pub fn handle_backspace(bm: &mut BufferManager, lm: &mut LayoutManager) -> (r: Result<(), LayoutError>)
    requires
        old(lm).wf(),
        old(bm).wf(),
    ensures
        final(lm).wf(),
        final(bm).wf(),
        match r {
            Ok(()) => {
                let id = old(lm).focused()->0->buffer_id;
                let lines = old(lm).focused_buffer(old(bm)).lines();
                let c = clamp_cursor(lines, pos_int(old(lm).focused()->0->cursor_pos));
                &&& old(lm).focus_ready(old(bm))
                &&& if c.0 > 0 {
                    &&& final(lm).cursor_moved(old(lm), (c.0 - 1, c.1))
                    &&& final(bm).buffer_edited(
                        old(bm),
                        id,
                        doc_delete(lines, (c.0 - 1, c.1), 1),
                    )
                } else if c.1 > 0 {
                    &&& final(lm).cursor_moved(
                        old(lm),
                        (cluster_count(lines[c.1 - 1]) as int, c.1 - 1),
                    )
                    &&& final(bm).buffer_edited(old(bm), id, doc_join(lines, c.1))
                } else {
                    &&& final(lm).cursor_moved(old(lm), c)
                    &&& *final(bm) == *old(bm)
                }
            },
            Err(e) => {
                &&& !old(lm).focus_ready(old(bm))
                &&& old(lm).is_focus_error(old(bm), e)
                &&& *final(lm) == *old(lm)
                &&& *final(bm) == *old(bm)
            },
        },
{
    lm.handle_backspace(bm)
}

/// Enter in the focused pane: cuts the line at the cursor and puts the
/// cursor at the start of the new line.
///
/// Fails as [`LayoutManager::get_current_buffer`] does, changing nothing.
pub fn handle_enter(bm: &mut BufferManager, lm: &mut LayoutManager) -> (r: Result<(), LayoutError>)
    requires
        old(lm).wf(),
        old(bm).wf(),
    ensures
        final(lm).wf(),
        final(bm).wf(),
        match r {
            Ok(()) => {
                let id = old(lm).focused()->0->buffer_id;
                let lines = old(lm).focused_buffer(old(bm)).lines();
                let c = clamp_cursor(lines, pos_int(old(lm).focused()->0->cursor_pos));
                &&& old(lm).focus_ready(old(bm))
                &&& final(lm).cursor_moved(old(lm), (0int, c.1 + 1))
                &&& final(bm).buffer_edited(old(bm), id, doc_split(lines, c))
            },
            Err(e) => {
                &&& !old(lm).focus_ready(old(bm))
                &&& old(lm).is_focus_error(old(bm), e)
                &&& *final(lm) == *old(lm)
                &&& *final(bm) == *old(bm)
            },
        },
{
    lm.handle_enter(bm)
}

/// Inserts `add_str` at the cursor of the focused pane, into the buffer
/// that the pane shows. The cursor stays where it is.
///
/// Fails as [`LayoutManager::get_current_buffer`] does, and with
/// `InvalidPosition`, wrapped, if the cursor stands below the buffer's last
/// line. Nothing changes then.
pub fn add_content_at(bm: &mut BufferManager, lm: &mut LayoutManager, add_str: &str) -> (r: Result<
    (),
    LayoutError,
>)
    requires
        old(bm).wf(),
        old(lm).wf(),
    ensures
        final(bm).wf(),
        *final(lm) == *old(lm),
        match r {
            Ok(()) => {
                let pane = old(lm).focused()->0;
                let lines = old(lm).focused_buffer(old(bm)).lines();
                &&& old(lm).focus_ready(old(bm))
                &&& pane->cursor_pos.1 < lines.len()
                &&& final(bm).buffer_edited(
                    old(bm),
                    pane->buffer_id,
                    doc_insert(lines, pos_int(pane->cursor_pos), add_str@),
                )
            },
            Err(e) => {
                &&& *final(bm) == *old(bm)
                &&& if old(lm).focus_ready(old(bm)) {
                    &&& e matches LayoutError::BufferErr(b)
                    &&& b is InvalidPosition
                    &&& old(lm).focused()->0->cursor_pos.1 >= old(lm).focused_buffer(
                        old(bm),
                    ).lines().len()
                } else {
                    old(lm).is_focus_error(old(bm), e)
                }
            },
        },
{
    let (buffer_id, cursor): (usize, (usize, usize)) = match lm.focus_info(bm) {
        Ok(info) => info,
        Err(e) => {
            return Err(e);
        },
    };
    let fits: bool = match bm.get_buffer(buffer_id) {
        Ok(buf) => cursor.1 < buf.get_line_count(),
        Err(e) => {
            return Err(LayoutError::BufferErr(e));
        },
    };
    if !fits {
        return Err(LayoutError::BufferErr(BufferError::InvalidPosition));
    }
    let buf: &mut Buffer = match bm.get_buffer_mut(buffer_id) {
        Ok(buf) => buf,
        Err(e) => {
            return Err(LayoutError::BufferErr(e));
        },
    };
    match buf.insert(add_str, cursor) {
        Ok(()) => {},
        Err(_) => {
            assert(false);
        },
    }
    proof {
        lemma_replace_keeps_wf(*old(bm), *bm, buffer_id);
    }
    Ok(())
}

/// What saving the buffer of the focused pane to its bound file has to
/// write.
///
/// Fails as [`LayoutManager::get_current_buffer`] does, and with
/// `InvalidPath`, wrapped, if the buffer has no bound file.
pub fn save(bm: &BufferManager, lm: &LayoutManager) -> (r: Result<SaveRequest, LayoutError>)
    requires
        bm.wf(),
        lm.wf(),
    ensures
        match r {
            Ok(req) => {
                let buf = lm.focused_buffer(bm);
                &&& lm.focus_ready(bm)
                &&& buf.path matches Some(p)
                &&& req.path@ == p@
                &&& req.text@ == join_lines(buf.lines())
            },
            Err(e) => if lm.focus_ready(bm) {
                &&& e matches LayoutError::BufferErr(b)
                &&& b is InvalidPath
                &&& lm.focused_buffer(bm).path is None
            } else {
                lm.is_focus_error(bm, e)
            },
        },
{
    let buf: &Buffer = match lm.get_current_buffer(bm) {
        Ok(buf) => buf,
        Err(e) => {
            return Err(e);
        },
    };
    match buf.save() {
        Ok(req) => Ok(req),
        Err(e) => Err(LayoutError::BufferErr(e)),
    }
}

/// Whether the buffer of the focused pane is bound to a file.
///
/// Fails as [`LayoutManager::get_current_buffer`] does.
pub fn is_buffer_binding(bm: &BufferManager, lm: &LayoutManager) -> (r: Result<bool, LayoutError>)
    requires
        bm.wf(),
        lm.wf(),
    ensures
        match r {
            Ok(bound) => lm.focus_ready(bm) && bound == lm.focused_buffer(bm).path is Some,
            Err(e) => !lm.focus_ready(bm) && lm.is_focus_error(bm, e),
        },
{
    match lm.get_current_buffer(bm) {
        Ok(buf) => Ok(buf.path.is_some()),
        Err(e) => Err(e),
    }
}

/// Whether `bm1` and `lm1` are `bm0` and `lm0` after one step in the
/// history of the focused pane's buffer, forward or back: the buffer's
/// history and content are one step on, the rest of the buffer and all
/// other buffers are as before, and the focused pane's cursor is pulled
/// back into the new content.
pub open spec fn history_stepped(
    bm0: &BufferManager,
    lm0: &LayoutManager,
    bm1: &BufferManager,
    lm1: &LayoutManager,
    forward: bool,
) -> bool {
    let pane = lm0.focused()->0;
    let before = lm0.focused_buffer(bm0);
    let i = bm0.index_of(pane->buffer_id);
    let after = bm1.buffers[i];
    let history = if forward {
        before.history_model().redo()
    } else {
        before.history_model().undo()
    };
    &&& lm0.focus_ready(bm0)
    &&& bm1.buffers@ == bm0.buffers@.update(i, after)
    &&& bm1.current_buffer == bm0.current_buffer
    &&& bm1.next_id == bm0.next_id
    &&& after.history_model() == history
    &&& after.lines() == history.current()
    &&& after.same_frame(&before)
    &&& lm1.cursor_moved(lm0, clamp_cursor(after.lines(), pos_int(pane->cursor_pos)))
}

/// Takes back the newest change of the focused pane's buffer and pulls the
/// pane's cursor back into the buffer.
///
/// Fails as [`LayoutManager::get_current_buffer`] does, changing nothing.
pub fn revoke(bm: &mut BufferManager, lm: &mut LayoutManager) -> (r: Result<(), LayoutError>)
    requires
        old(bm).wf(),
        old(lm).wf(),
    ensures
        final(bm).wf(),
        final(lm).wf(),
        match r {
            Ok(()) => history_stepped(old(bm), old(lm), final(bm), final(lm), false),
            Err(e) => {
                &&& !old(lm).focus_ready(old(bm))
                &&& old(lm).is_focus_error(old(bm), e)
                &&& *final(bm) == *old(bm)
                &&& *final(lm) == *old(lm)
            },
        },
{
    let buf: &mut Buffer = match lm.get_current_buffer_mut(bm) {
        Ok(buf) => buf,
        Err(e) => {
            return Err(e);
        },
    };
    let ghost id = buf.id;
    buf.undo();
    proof {
        lemma_replace_keeps_wf(*old(bm), *bm, id);
    }
    match lm.check_cursor_bounds(bm) {
        Ok(()) => Ok(()),
        Err(e) => {
            proof {
                assert(false);
            }
            Err(e)
        },
    }
}

/// Brings back the change of the focused pane's buffer that was undone
/// last and pulls the pane's cursor back into the buffer.
///
/// Fails as [`LayoutManager::get_current_buffer`] does, changing nothing.
pub fn redo(bm: &mut BufferManager, lm: &mut LayoutManager) -> (r: Result<(), LayoutError>)
    requires
        old(bm).wf(),
        old(lm).wf(),
    ensures
        final(bm).wf(),
        final(lm).wf(),
        match r {
            Ok(()) => history_stepped(old(bm), old(lm), final(bm), final(lm), true),
            Err(e) => {
                &&& !old(lm).focus_ready(old(bm))
                &&& old(lm).is_focus_error(old(bm), e)
                &&& *final(bm) == *old(bm)
                &&& *final(lm) == *old(lm)
            },
        },
{
    let buf: &mut Buffer = match lm.get_current_buffer_mut(bm) {
        Ok(buf) => buf,
        Err(e) => {
            return Err(e);
        },
    };
    let ghost id = buf.id;
    buf.redo();
    proof {
        lemma_replace_keeps_wf(*old(bm), *bm, id);
    }
    match lm.check_cursor_bounds(bm) {
        Ok(()) => Ok(()),
        Err(e) => {
            proof {
                assert(false);
            }
            Err(e)
        },
    }
}

/// Whether `lm1` is `lm0` with the focused pane split in direction
/// `direc`: the new pane has the next id, shows buffer `buf_id` or the
/// focused pane's buffer, and has the focus.
pub open spec fn focused_split(
    lm0: &LayoutManager,
    lm1: &LayoutManager,
    direc: SplitDirection,
    buf_id: Option<usize>,
) -> bool {
    &&& lm0.panes matches Some(t)
    &&& lm1.panes == Some(t.spec_split(lm0.current_layout, lm0.id_counter, buf_id, direc))
    &&& lm1.current_layout == lm0.id_counter
    &&& lm1.id_counter == lm0.id_counter + 1
    &&& lm1.pane_rects == lm0.pane_rects
    &&& lm1.free_mode == lm0.free_mode
}

/// Splits the focused pane in direction `direc`. The new pane shows
/// buffer `buf_id`, or the focused pane's buffer where none is given, and
/// gets the focus.
///
/// Fails with `PaneNotFound` if no pane is open, and with `InvalidId`,
/// wrapped, if `buf_id` names no buffer of `bm`. Nothing changes then.
pub fn split(bm: &BufferManager, lm: &mut LayoutManager, direc: SplitDirection, buf_id: Option<
    usize,
>) -> (r: Result<(), LayoutError>)
    requires
        bm.wf(),
        old(lm).wf(),
        old(lm).id_counter < usize::MAX,
    ensures
        final(lm).wf(),
        match r {
            Ok(()) => (buf_id matches Some(b) ==> bm.has_id(b)) && focused_split(
                old(lm),
                final(lm),
                direc,
                buf_id,
            ),
            Err(e) => {
                &&& *final(lm) == *old(lm)
                &&& match old(lm).panes {
                    None => e is PaneNotFound,
                    Some(_) => {
                        &&& e matches LayoutError::BufferErr(b)
                        &&& b is InvalidId
                        &&& buf_id matches Some(id)
                        &&& !bm.has_id(id)
                    },
                }
            },
        },
{
    let id: usize = match lm.get_current_pane() {
        Some(LayoutNode::Pane { id, .. }) => id,
        _ => {
            return Err(LayoutError::PaneNotFound);
        },
    };
    match buf_id {
        Some(new_id) => {
            match bm.get_buffer(new_id) {
                Ok(_) => {},
                Err(e) => {
                    return Err(LayoutError::BufferErr(e));
                },
            }
        },
        None => {},
    }
    match lm.split(id, buf_id, direc) {
        Ok(_) => Ok(()),
        Err(e) => {
            proof {
                assert(false);
            }
            Err(e)
        },
    }
}

/// Whether `lm1` is `lm0` with the focused pane closed: the pane and its
/// rectangle are gone, the focus is on the leftmost pane that is left, and
/// the screen is the welcome screen if none is left, and `screen0`
/// otherwise.
pub open spec fn focused_closed(
    lm0: &LayoutManager,
    lm1: &LayoutManager,
    screen0: Screen,
    screen1: Screen,
) -> bool {
    let target = lm0.current_layout;
    &&& lm0.panes matches Some(t)
    &&& lm1.panes == t.spec_remove(target)
    &&& !lm1.has_pane(target)
    &&& lm1.current_layout == match t.spec_remove(target) {
        Some(rest) => rest.first_id(),
        None => 0,
    }
    &&& lm1.pane_rects@ == lm0.pane_rects@.remove(target)
    &&& lm1.id_counter == lm0.id_counter
    &&& lm1.free_mode == lm0.free_mode
    &&& screen1 == if lm1.panes is None {
        Screen::Welcome
    } else {
        screen0
    }
}

/// Closes the focused pane. When no pane is left, the welcome screen is
/// shown.
///
/// Fails with `PaneNotFound`, changing nothing, if no pane is open.
pub fn close_current_pane(lm: &mut LayoutManager, cur_screen: &mut Screen) -> (r: Result<
    (),
    LayoutError,
>)
    requires
        old(lm).wf(),
    ensures
        final(lm).wf(),
        match r {
            Ok(()) => focused_closed(old(lm), final(lm), *old(cur_screen), *final(cur_screen)),
            Err(e) => {
                &&& e is PaneNotFound
                &&& old(lm).panes is None
                &&& *final(lm) == *old(lm)
                &&& *final(cur_screen) == *old(cur_screen)
            },
        },
{
    let id: usize = match lm.get_current_pane() {
        Some(LayoutNode::Pane { id, .. }) => id,
        _ => {
            return Err(LayoutError::PaneNotFound);
        },
    };
    match lm.remove(id) {
        Ok(_) => {},
        Err(e) => {
            proof {
                assert(false);
            }
            return Err(e);
        },
    }
    if lm.panes.is_none() {
        *cur_screen = Screen::Welcome;
    }
    Ok(())
}

/// Moves the focus to the nearest pane in direction `direc`, if there is
/// one; see [`LayoutManager::move_focus`].
pub fn move_focus_in_pane(lm: &mut LayoutManager, direc: MoveDir) -> (r: Option<usize>)
    requires
        old(lm).wf(),
    ensures
        final(lm).wf(),
        final(lm).focus_moved(old(lm), direc, r),
{
    lm.move_focus(direc)
}

/// Gives the focus to pane `id`, which must have been drawn already.
///
/// Fails with `IdNotFound`, changing nothing, if no rectangle is known for
/// `id`.
pub fn change_pane(lm: &mut LayoutManager, id: usize) -> (r: Result<(), LayoutError>)
    requires
        old(lm).wf(),
    ensures
        final(lm).wf(),
        match r {
            Ok(()) => {
                &&& old(lm).pane_rects@.contains_key(id)
                &&& final(lm).current_layout == id
                &&& final(lm).panes == old(lm).panes
                &&& final(lm).pane_rects == old(lm).pane_rects
                &&& final(lm).id_counter == old(lm).id_counter
                &&& final(lm).free_mode == old(lm).free_mode
            },
            Err(e) => {
                &&& e is IdNotFound
                &&& !old(lm).pane_rects@.contains_key(id)
                &&& *final(lm) == *old(lm)
            },
        },
{
    if !lm.contain_id(id) {
        return Err(LayoutError::IdNotFound);
    }
    proof {
        assert(lm.has_pane(id));
    }
    lm.current_layout = id;
    Ok(())
}

/// Removes the `len` clusters before the cursor of the focused pane, after
/// pulling the cursor back into its buffer, and moves the cursor onto
/// their place. With the cursor at the start of a line this is a
/// backspace, whatever `len` is: the line is joined to the one before, and
/// at the start of the buffer nothing happens.
///
/// Fails as [`LayoutManager::get_current_buffer`] does, and with
/// `InvalidPosition`, wrapped, if some but fewer than `len` clusters stand
/// before the cursor. Nothing changes then.
pub fn delete_before_cursor(bm: &mut BufferManager, lm: &mut LayoutManager, len: usize) -> (r:
    Result<(), LayoutError>)
    requires
        old(bm).wf(),
        old(lm).wf(),
    ensures
        final(bm).wf(),
        final(lm).wf(),
        match r {
            Ok(()) => {
                let id = old(lm).focused()->0->buffer_id;
                let lines = old(lm).focused_buffer(old(bm)).lines();
                let c = clamp_cursor(lines, pos_int(old(lm).focused()->0->cursor_pos));
                &&& old(lm).focus_ready(old(bm))
                &&& if c.0 > 0 {
                    &&& len <= c.0
                    &&& final(lm).cursor_moved(old(lm), (c.0 - len, c.1))
                    &&& final(bm).buffer_edited(
                        old(bm),
                        id,
                        doc_delete(lines, (c.0 - len, c.1), len as int),
                    )
                } else if c.1 > 0 {
                    &&& final(lm).cursor_moved(
                        old(lm),
                        (cluster_count(lines[c.1 - 1]) as int, c.1 - 1),
                    )
                    &&& final(bm).buffer_edited(old(bm), id, doc_join(lines, c.1))
                } else {
                    &&& final(lm).cursor_moved(old(lm), c)
                    &&& *final(bm) == *old(bm)
                }
            },
            Err(e) => {
                &&& *final(bm) == *old(bm)
                &&& *final(lm) == *old(lm)
                &&& if old(lm).focus_ready(old(bm)) {
                    let lines = old(lm).focused_buffer(old(bm)).lines();
                    let c = clamp_cursor(lines, pos_int(old(lm).focused()->0->cursor_pos));
                    &&& e matches LayoutError::BufferErr(b)
                    &&& b is InvalidPosition
                    &&& 0 < c.0 < len
                } else {
                    old(lm).is_focus_error(old(bm), e)
                }
            },
        },
{
    let (buffer_id, cursor): (usize, (usize, usize)) = match lm.focus_info(bm) {
        Ok(info) => info,
        Err(e) => {
            return Err(e);
        },
    };
    let (x, y): (usize, usize) = match bm.get_buffer(buffer_id) {
        Ok(buf) => clamp_pos(&buf.content, cursor),
        Err(e) => {
            return Err(LayoutError::BufferErr(e));
        },
    };
    if x == 0 {
        return lm.handle_backspace(bm);
    }
    if len > x {
        return Err(LayoutError::BufferErr(BufferError::InvalidPosition));
    }
    let buf: &mut Buffer = match bm.get_buffer_mut(buffer_id) {
        Ok(buf) => buf,
        Err(e) => {
            return Err(LayoutError::BufferErr(e));
        },
    };
    match buf.delete(len, (x - len, y)) {
        Ok(()) => {},
        Err(_) => {
            assert(false);
        },
    }
    proof {
        lemma_replace_keeps_wf(*old(bm), *bm, buffer_id);
    }
    lm.set_cursor((x - len, y));
    Ok(())
}

/// Removes the line that the cursor of the focused pane stands on, after
/// pulling the cursor back into its buffer, and returns the line's text.
/// The cursor goes to the start of the line that takes its place, or of
/// the last line if there is none.
///
/// Fails as [`LayoutManager::get_current_buffer`] does, changing nothing.
pub fn delete_line(bm: &mut BufferManager, lm: &mut LayoutManager) -> (r: Result<
    String,
    LayoutError,
>)
    requires
        old(bm).wf(),
        old(lm).wf(),
    ensures
        final(bm).wf(),
        final(lm).wf(),
        match r {
            Ok(text) => {
                let id = old(lm).focused()->0->buffer_id;
                let lines = old(lm).focused_buffer(old(bm)).lines();
                let c = clamp_cursor(lines, pos_int(old(lm).focused()->0->cursor_pos));
                let rest = doc_delete_line(lines, c.1);
                &&& old(lm).focus_ready(old(bm))
                &&& text@ == lines[c.1]
                &&& final(bm).buffer_edited(old(bm), id, rest)
                &&& final(lm).cursor_moved(
                    old(lm),
                    (
                        0int,
                        if c.1 < rest.len() {
                            c.1
                        } else {
                            rest.len() - 1
                        },
                    ),
                )
            },
            Err(e) => {
                &&& !old(lm).focus_ready(old(bm))
                &&& old(lm).is_focus_error(old(bm), e)
                &&& *final(bm) == *old(bm)
                &&& *final(lm) == *old(lm)
            },
        },
{
    let (buffer_id, cursor): (usize, (usize, usize)) = match lm.focus_info(bm) {
        Ok(info) => info,
        Err(e) => {
            return Err(e);
        },
    };
    let buf: &mut Buffer = match bm.get_buffer_mut(buffer_id) {
        Ok(buf) => buf,
        Err(e) => {
            return Err(LayoutError::BufferErr(e));
        },
    };
    let (_x, y): (usize, usize) = clamp_pos(&buf.content, cursor);
    let text: String = match buf.delete_line(y) {
        Ok(text) => text,
        Err(_) => {
            proof {
                assert(false);
            }
            String::new()
        },
    };
    let left: usize = buf.get_line_count();
    proof {
        lemma_replace_keeps_wf(*old(bm), *bm, buffer_id);
    }
    let line: usize = if y < left {
        y
    } else {
        left - 1
    };
    lm.set_cursor((0, line));
    Ok(text)
}

/// The earlier and the later of two positions, in reading order.
pub open spec fn ordered(a: (int, int), b: (int, int)) -> ((int, int), (int, int)) {
    if a.1 < b.1 || (a.1 == b.1 && a.0 <= b.0) {
        (a, b)
    } else {
        (b, a)
    }
}

/// Removes the text between `anchor` and the cursor of the focused pane,
/// whichever comes first, after pulling both back into the buffer.
/// Returns the removed text, with a line feed for every line break in it;
/// the cursor goes to where the removed text began.
///
/// Fails as [`LayoutManager::get_current_buffer`] does, changing nothing.
pub fn delete_selection(bm: &mut BufferManager, lm: &mut LayoutManager, anchor: (usize, usize)) -> (r:
    Result<String, LayoutError>)
    requires
        old(bm).wf(),
        old(lm).wf(),
    ensures
        final(bm).wf(),
        final(lm).wf(),
        match r {
            Ok(text) => {
                let id = old(lm).focused()->0->buffer_id;
                let lines = old(lm).focused_buffer(old(bm)).lines();
                let c = clamp_cursor(lines, pos_int(old(lm).focused()->0->cursor_pos));
                let a = clamp_cursor(lines, pos_int(anchor));
                let (start, end) = ordered(a, c);
                &&& old(lm).focus_ready(old(bm))
                &&& text@ == block_text(lines, start, end)
                &&& final(bm).buffer_edited(old(bm), id, doc_delete_block(lines, start, end))
                &&& final(lm).cursor_moved(old(lm), start)
            },
            Err(e) => {
                &&& !old(lm).focus_ready(old(bm))
                &&& old(lm).is_focus_error(old(bm), e)
                &&& *final(bm) == *old(bm)
                &&& *final(lm) == *old(lm)
            },
        },
{
    let (buffer_id, cursor): (usize, (usize, usize)) = match lm.focus_info(bm) {
        Ok(info) => info,
        Err(e) => {
            return Err(e);
        },
    };
    let buf: &mut Buffer = match bm.get_buffer_mut(buffer_id) {
        Ok(buf) => buf,
        Err(e) => {
            return Err(LayoutError::BufferErr(e));
        },
    };
    let c: (usize, usize) = clamp_pos(&buf.content, cursor);
    let a: (usize, usize) = clamp_pos(&buf.content, anchor);
    let (start, end): ((usize, usize), (usize, usize)) = if a.1 < c.1 || (a.1 == c.1 && a.0
        <= c.0) {
        (a, c)
    } else {
        (c, a)
    };
    let text: String = match buf.delete_block(start, end) {
        Ok(text) => text,
        Err(_) => {
            proof {
                assert(false);
            }
            String::new()
        },
    };
    proof {
        lemma_replace_keeps_wf(*old(bm), *bm, buffer_id);
    }
    lm.set_cursor(start);
    Ok(text)
}

/// Inserts `lines`, joined by line feeds, at the cursor of the focused
/// pane; every line feed starts a new line of the buffer. The cursor
/// stays where it is.
///
/// Fails as [`LayoutManager::get_current_buffer`] does, and with
/// `InvalidPosition`, wrapped, if the cursor stands below the buffer's last
/// line. Nothing changes then.
pub fn insert_lines(bm: &mut BufferManager, lm: &mut LayoutManager, lines: &Vec<String>) -> (r:
    Result<(), LayoutError>)
    requires
        old(bm).wf(),
        old(lm).wf(),
    ensures
        final(bm).wf(),
        *final(lm) == *old(lm),
        match r {
            Ok(()) => {
                let pane = old(lm).focused()->0;
                let content = old(lm).focused_buffer(old(bm)).lines();
                &&& old(lm).focus_ready(old(bm))
                &&& pane->cursor_pos.1 < content.len()
                &&& final(bm).buffer_edited(
                    old(bm),
                    pane->buffer_id,
                    doc_insert_block(
                        content,
                        pos_int(pane->cursor_pos),
                        join_lines(lines.deep_view()),
                    ),
                )
            },
            Err(e) => {
                &&& *final(bm) == *old(bm)
                &&& if old(lm).focus_ready(old(bm)) {
                    &&& e matches LayoutError::BufferErr(b)
                    &&& b is InvalidPosition
                    &&& old(lm).focused()->0->cursor_pos.1 >= old(lm).focused_buffer(
                        old(bm),
                    ).lines().len()
                } else {
                    old(lm).is_focus_error(old(bm), e)
                }
            },
        },
{
    let (buffer_id, cursor): (usize, (usize, usize)) = match lm.focus_info(bm) {
        Ok(info) => info,
        Err(e) => {
            return Err(e);
        },
    };
    let fits: bool = match bm.get_buffer(buffer_id) {
        Ok(buf) => cursor.1 < buf.get_line_count(),
        Err(e) => {
            return Err(LayoutError::BufferErr(e));
        },
    };
    if !fits {
        return Err(LayoutError::BufferErr(BufferError::InvalidPosition));
    }
    let text: String = join_text(lines);
    let buf: &mut Buffer = match bm.get_buffer_mut(buffer_id) {
        Ok(buf) => buf,
        Err(e) => {
            return Err(LayoutError::BufferErr(e));
        },
    };
    match buf.insert_block(text.as_str(), cursor) {
        Ok(()) => {},
        Err(_) => {
            assert(false);
        },
    }
    proof {
        lemma_replace_keeps_wf(*old(bm), *bm, buffer_id);
    }
    Ok(())
}

/// An editing request from a key binding.
pub enum Instruction {
    /// Insert the text at the cursor.
    InsertText(String),
    /// Remove that many clusters before the cursor.
    DeleteText(usize),
    /// Break the line at the cursor.
    InsertLine,
    /// Remove the cursor's line.
    DeleteLine,
    /// Remove the text between the given position and the cursor.
    DeleteBlock((usize, usize)),
    /// Insert the lines at the cursor.
    InsertBlock(Vec<String>),
}

/// Carries out `instruction` on the focused pane: `InsertText` as
/// [`add_content_at`], `DeleteText` as [`delete_before_cursor`],
/// `InsertLine` as [`LayoutManager::handle_enter`], `DeleteLine` as
/// [`delete_line`], `DeleteBlock` as [`delete_selection`] and
/// `InsertBlock` as [`insert_lines`]. Removed text is dropped.
pub fn handle_instructions(
    bm: &mut BufferManager,
    lm: &mut LayoutManager,
    instruction: &Instruction,
) -> (r: Result<(), LayoutError>)
    requires
        old(bm).wf(),
        old(lm).wf(),
    ensures
        final(bm).wf(),
        final(lm).wf(),
        !old(lm).focus_ready(old(bm)) ==> {
            &&& r matches Err(e)
            &&& old(lm).is_focus_error(old(bm), e)
            &&& *final(bm) == *old(bm)
            &&& *final(lm) == *old(lm)
        },
        old(lm).focus_ready(old(bm)) ==> ({
            let id = old(lm).focused()->0->buffer_id;
            let cursor = old(lm).focused()->0->cursor_pos;
            let lines = old(lm).focused_buffer(old(bm)).lines();
            let c = clamp_cursor(lines, pos_int(cursor));
            match *instruction {
                Instruction::InsertText(text) => if cursor.1 < lines.len() {
                    &&& r is Ok
                    &&& *final(lm) == *old(lm)
                    &&& final(bm).buffer_edited(
                        old(bm),
                        id,
                        doc_insert(lines, pos_int(cursor), text@),
                    )
                } else {
                    &&& r matches Err(LayoutError::BufferErr(b))
                    &&& b is InvalidPosition
                    &&& *final(bm) == *old(bm)
                    &&& *final(lm) == *old(lm)
                },
                Instruction::DeleteText(len) => if c.0 > 0 && len > c.0 {
                    &&& r matches Err(LayoutError::BufferErr(b))
                    &&& b is InvalidPosition
                    &&& *final(bm) == *old(bm)
                    &&& *final(lm) == *old(lm)
                } else if c.0 > 0 {
                    &&& r is Ok
                    &&& final(lm).cursor_moved(old(lm), (c.0 - len, c.1))
                    &&& final(bm).buffer_edited(
                        old(bm),
                        id,
                        doc_delete(lines, (c.0 - len, c.1), len as int),
                    )
                } else if c.1 > 0 {
                    &&& r is Ok
                    &&& final(lm).cursor_moved(
                        old(lm),
                        (cluster_count(lines[c.1 - 1]) as int, c.1 - 1),
                    )
                    &&& final(bm).buffer_edited(old(bm), id, doc_join(lines, c.1))
                } else {
                    &&& r is Ok
                    &&& final(lm).cursor_moved(old(lm), c)
                    &&& *final(bm) == *old(bm)
                },
                Instruction::InsertLine => {
                    &&& r is Ok
                    &&& final(lm).cursor_moved(old(lm), (0int, c.1 + 1))
                    &&& final(bm).buffer_edited(old(bm), id, doc_split(lines, c))
                },
                Instruction::DeleteLine => {
                    let rest = doc_delete_line(lines, c.1);
                    &&& r is Ok
                    &&& final(bm).buffer_edited(old(bm), id, rest)
                    &&& final(lm).cursor_moved(
                        old(lm),
                        (
                            0int,
                            if c.1 < rest.len() {
                                c.1
                            } else {
                                rest.len() - 1
                            },
                        ),
                    )
                },
                Instruction::DeleteBlock(anchor) => {
                    let (start, end) = ordered(clamp_cursor(lines, pos_int(anchor)), c);
                    &&& r is Ok
                    &&& final(bm).buffer_edited(old(bm), id, doc_delete_block(lines, start, end))
                    &&& final(lm).cursor_moved(old(lm), start)
                },
                Instruction::InsertBlock(block) => if cursor.1 < lines.len() {
                    &&& r is Ok
                    &&& *final(lm) == *old(lm)
                    &&& final(bm).buffer_edited(
                        old(bm),
                        id,
                        doc_insert_block(lines, pos_int(cursor), join_lines(block.deep_view())),
                    )
                } else {
                    &&& r matches Err(LayoutError::BufferErr(b))
                    &&& b is InvalidPosition
                    &&& *final(bm) == *old(bm)
                    &&& *final(lm) == *old(lm)
                },
            }
        }),
{
    match instruction {
        Instruction::InsertText(text) => add_content_at(bm, lm, text.as_str()),
        Instruction::DeleteText(len) => delete_before_cursor(bm, lm, *len),
        Instruction::InsertLine => lm.handle_enter(bm),
        Instruction::DeleteLine => {
            match delete_line(bm, lm) {
                Ok(_) => Ok(()),
                Err(e) => Err(e),
            }
        },
        Instruction::DeleteBlock(anchor) => {
            match delete_selection(bm, lm, *anchor) {
                Ok(_) => Ok(()),
                Err(e) => Err(e),
            }
        },
        Instruction::InsertBlock(block) => insert_lines(bm, lm, block),
    }
}

} // verus!
