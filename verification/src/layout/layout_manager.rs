//! The layout manager: owner of the pane tree, of the focus and of the
//! rectangles that the renderer reports for the panes.

use crate::layout::rect::{gap, gap_between, is_beyond, lies_beyond, no_worse, MoveDir, Rect};
use crate::buffer::Buffer;
use crate::document::{doc_delete, doc_join, doc_split};
use crate::buffer_manager::{lemma_replace_keeps_wf, BufferManager};
use crate::cursor::{
    clamp_cursor, clamp_line, clamp_line_pos, clamp_pos, cursor_down, cursor_left, cursor_right,
    cursor_up, move_down, move_left, move_right, move_up, pos_int,
};
use crate::grapheme::cluster_count;
use crate::scroll::{compute_scroll, cursor_in_view, scroll_axis};
use crate::utils::get_line_len;
use crate::error::LayoutError;
use crate::layout::tree::{
    lemma_find, lemma_remove_ids, lemma_replace_pane, lemma_split_ids, remove_pane,
    split_current, LayoutNode, SplitDirection,
};
use std::collections::HashMap;
use vstd::prelude::*;

verus! {

/// Owns the layout tree and the focus.
pub struct LayoutManager {
    /// The screen rectangle that each pane was drawn in last.
    pub pane_rects: HashMap<usize, Rect>,
    /// The id that the next pane gets.
    pub id_counter: usize,
    /// The root of the tree; `None` while no pane is open.
    pub panes: Option<LayoutNode>,
    /// The id of the focused pane.
    pub current_layout: usize,
    /// Whether the cursor may leave a line sideways and may open a new
    /// line by moving down from the last one.
    pub free_mode: bool,
}

impl LayoutManager {
    /// Whether a pane with this id is open.
    pub open spec fn has_pane(&self, id: usize) -> bool {
        self.panes matches Some(t) && t.contains(id)
    }

    /// The manager's invariant. The tree, if there is one, is well formed,
    /// holds the focused pane, and holds only ids that were handed out
    /// already; and a rectangle is kept for open panes only.
    pub open spec fn wf(&self) -> bool {
        &&& match self.panes {
            Some(t) => {
                &&& t.wf()
                &&& t.contains(self.current_layout)
                &&& forall|id: usize| #[trigger] t.contains(id) ==> id < self.id_counter
            },
            None => true,
        }
        &&& forall|id: usize| #[trigger] self.pane_rects@.contains_key(id) ==> self.has_pane(id)
    }

    /// A manager without panes.
    pub fn new() -> (r: Self)
        ensures
            r.wf(),
            r.panes is None,
            r.pane_rects@ == Map::<usize, Rect>::empty(),
            r.id_counter == 1,
            r.current_layout == 0,
            !r.free_mode,
    {
        Self {
            pane_rects: HashMap::new(),
            id_counter: 1,
            panes: None,
            current_layout: 0,
            free_mode: false,
        }
    }

    /// Opens a single pane on buffer `buffer_id` and focuses it. Whatever
    /// was open before is dropped, with its rectangles.
    pub fn init(&mut self, buffer_id: usize)
        requires
            old(self).id_counter < usize::MAX,
        ensures
            final(self).wf(),
            final(self).panes == Some(
                LayoutNode::spec_new_pane(old(self).id_counter, buffer_id),
            ),
            final(self).current_layout == old(self).id_counter,
            final(self).id_counter == old(self).id_counter + 1,
            final(self).pane_rects@ == Map::<usize, Rect>::empty(),
            final(self).free_mode == old(self).free_mode,
    {
        let id: usize = self.id_counter;
        let root: LayoutNode = LayoutNode::new_pane(id, buffer_id);
        proof {
            assert(root.pane_ids()[0] == id);
            assert forall|x: usize| #[trigger] root.contains(x) implies x < id + 1 by {
                let i = root.pane_ids().index_of(x);
                assert(root.pane_ids()[i] == x);
            }
        }
        self.panes = Some(root);
        self.pane_rects = HashMap::new();
        self.id_counter = id + 1;
        self.current_layout = id;
    }

    /// Splits the pane `target_id` in direction `direc`. The new pane
    /// shows buffer `new_buf_id`, or the buffer of `target_id` where none
    /// is given; it gets the next id and the focus. Returns the new id.
    ///
    /// Fails with `NoNode` if no pane is open and with `IdNotFound` if
    /// there is no pane `target_id`; nothing changes then.
    pub fn split(&mut self, target_id: usize, new_buf_id: Option<usize>, direc: SplitDirection) -> (r:
        Result<usize, LayoutError>)
        requires
            old(self).wf(),
            old(self).id_counter < usize::MAX,
        ensures
            final(self).wf(),
            match r {
                Ok(new_id) => {
                    &&& old(self).panes matches Some(t)
                    &&& t.contains(target_id)
                    &&& new_id == old(self).id_counter
                    &&& !t.contains(new_id)
                    &&& final(self).panes == Some(
                        t.spec_split(target_id, new_id, new_buf_id, direc),
                    )
                    &&& final(self).current_layout == new_id
                    &&& final(self).id_counter == old(self).id_counter + 1
                    &&& final(self).pane_rects == old(self).pane_rects
                    &&& final(self).free_mode == old(self).free_mode
                },
                Err(e) => {
                    &&& *final(self) == *old(self)
                    &&& match old(self).panes {
                        Some(t) => e is IdNotFound && !t.contains(target_id),
                        None => e is NoNode,
                    }
                },
            },
    {
        let new_id: usize = self.id_counter;
        match &mut self.panes {
            None => Err(LayoutError::NoNode),
            Some(node) => {
                let ghost before = *node;
                proof {
                    if before.contains(new_id) {
                        assert(new_id < old(self).id_counter);
                    }
                }
                if split_current(node, target_id, new_id, new_buf_id, direc) {
                    proof {
                        lemma_split_ids(before, target_id, new_id, new_buf_id, direc);
                    }
                    self.current_layout = new_id;
                    self.id_counter = new_id + 1;
                    Ok(new_id)
                } else {
                    proof {
                        crate::layout::tree::lemma_split_absent(
                            before,
                            target_id,
                            new_id,
                            new_buf_id,
                            direc,
                        );
                    }
                    Err(LayoutError::IdNotFound)
                }
            },
        }
    }
}

impl LayoutManager {
    /// Closes the pane `target_id`. Its parent split is replaced by the
    /// pane's sibling; if it was the only pane, no pane is open
    /// afterwards. If it had the focus, the focus goes to the leftmost
    /// pane that is left. The pane's rectangle is forgotten. Returns the id
    /// of the closed pane.
    ///
    /// Fails with `NoNode` if no pane is open and with `IdNotFound` if
    /// there is no pane `target_id`; nothing changes then.
    pub fn remove(&mut self, target_id: usize) -> (r: Result<Option<usize>, LayoutError>)
        requires
            old(self).wf(),
        ensures
            final(self).wf(),
            match r {
                Ok(closed) => {
                    &&& closed == Some(target_id)
                    &&& old(self).panes matches Some(t)
                    &&& t.contains(target_id)
                    &&& final(self).panes == t.spec_remove(target_id)
                    &&& !final(self).has_pane(target_id)
                    &&& final(self).current_layout == if old(self).current_layout != target_id {
                        old(self).current_layout
                    } else {
                        match t.spec_remove(target_id) {
                            Some(rest) => rest.first_id(),
                            None => 0,
                        }
                    }
                    &&& final(self).pane_rects@ == old(self).pane_rects@.remove(target_id)
                    &&& final(self).id_counter == old(self).id_counter
                    &&& final(self).free_mode == old(self).free_mode
                },
                Err(e) => {
                    &&& *final(self) == *old(self)
                    &&& match old(self).panes {
                        Some(t) => e is IdNotFound && !t.contains(target_id),
                        None => e is NoNode,
                    }
                },
            },
    {
        let found: bool = match &self.panes {
            None => {
                return Err(LayoutError::NoNode);
            },
            Some(node) => node.get_pane(target_id).is_some(),
        };
        if !found {
            return Err(LayoutError::IdNotFound);
        }
        let ghost before = old(self).panes->0;
        let node: LayoutNode = match self.panes.take() {
            Some(node) => node,
            None => {
                return Err(LayoutError::NoNode);
            },
        };
        proof {
            lemma_remove_ids(before, target_id);
        }
        self.panes = remove_pane(node, target_id);
        if self.current_layout == target_id {
            self.current_layout = match &self.panes {
                Some(rest) => rest.first_pane_id(),
                None => 0,
            };
        }
        self.pane_rects.remove(&target_id);
        proof {
            assert(self.pane_rects@ == old(self).pane_rects@.remove(target_id));
            assert forall|id: usize| #[trigger]
                self.pane_rects@.contains_key(id) implies self.has_pane(id) by {
                assert(old(self).pane_rects@.contains_key(id));
                assert(old(self).has_pane(id));
                assert(id != target_id);
            }
        }
        Ok(Some(target_id))
    }

    /// Takes the rectangle that pane `id` was drawn in. Returns whether
    /// there is such a pane; a rectangle for an id that names no open pane
    /// is not kept.
    pub fn set_pane_rect(&mut self, id: usize, rect: Rect) -> (known: bool)
        requires
            old(self).wf(),
        ensures
            final(self).wf(),
            known == old(self).has_pane(id),
            final(self).pane_rects@ == if known {
                old(self).pane_rects@.insert(id, rect)
            } else {
                old(self).pane_rects@
            },
            final(self).panes == old(self).panes,
            final(self).current_layout == old(self).current_layout,
            final(self).id_counter == old(self).id_counter,
            final(self).free_mode == old(self).free_mode,
    {
        let known: bool = match &self.panes {
            Some(t) => t.get_pane(id).is_some(),
            None => false,
        };
        if known {
            self.pane_rects.insert(id, rect);
        }
        known
    }

    /// The rectangle that the focused pane was drawn in last, if one is
    /// known.
    pub fn get_current_rect(&self) -> (r: Option<&Rect>)
        ensures
            match r {
                Some(rect) => self.pane_rects@.contains_key(self.current_layout) && *rect
                    == self.pane_rects@[self.current_layout],
                None => !self.pane_rects@.contains_key(self.current_layout),
            },
    {
        self.pane_rects.get(&self.current_layout)
    }

    /// Whether a rectangle is known for pane `id`.
    pub fn contain_id(&self, id: usize) -> (r: bool)
        ensures
            r == self.pane_rects@.contains_key(id),
    {
        self.pane_rects.contains_key(&id)
    }
}

impl LayoutManager {
    /// Whether pane `id` is one that the focus can move to in direction
    /// `dir`: it is not the focused pane, a rectangle is known for it and
    /// for the focused pane, and its rectangle lies beyond that of the
    /// focused pane.
    pub open spec fn is_target(&self, dir: MoveDir, id: usize) -> bool {
        &&& id != self.current_layout
        &&& self.pane_rects@.contains_key(self.current_layout)
        &&& self.pane_rects@.contains_key(id)
        &&& lies_beyond(dir, self.pane_rects@[self.current_layout], self.pane_rects@[id])
    }

    /// The distance from the focused pane to pane `id` in direction `dir`.
    pub open spec fn distance(&self, dir: MoveDir, id: usize) -> int {
        gap(dir, self.pane_rects@[self.current_layout], self.pane_rects@[id])
    }

    /// Whether the choice `best` is a pane that is to be preferred to pane
    /// `other`, or is `other` itself.
    pub open spec fn beats(&self, dir: MoveDir, best: Option<(usize, u32)>, other: usize) -> bool {
        match best {
            Some((b, d)) => no_worse(b, d as int, other, self.distance(dir, other)),
            None => false,
        }
    }

    /// Whether `choice` is what a focus move in direction `dir` has to
    /// pick: the pane that the focus can move to and that is nearest, with
    /// the smallest id among equally near ones; or nothing, if the focus
    /// can move to no pane.
    pub open spec fn is_nearest(&self, dir: MoveDir, choice: Option<usize>) -> bool {
        match choice {
            Some(id) => {
                &&& self.is_target(dir, id)
                &&& forall|other: usize| #[trigger]
                    self.is_target(dir, other) ==> no_worse(
                        id,
                        self.distance(dir, id),
                        other,
                        self.distance(dir, other),
                    )
            },
            None => forall|other: usize| !#[trigger] self.is_target(dir, other),
        }
    }

    /// Whether `self` is `before` after a focus move in direction `dir`
    /// that picked `choice`: the focus is on the picked pane, or where it
    /// was if none was picked, and nothing else differs.
    pub open spec fn focus_moved(
        &self,
        before: &LayoutManager,
        dir: MoveDir,
        choice: Option<usize>,
    ) -> bool {
        &&& before.is_nearest(dir, choice)
        &&& self.current_layout == match choice {
            Some(id) => id,
            None => before.current_layout,
        }
        &&& self.pane_rects == before.pane_rects
        &&& self.panes == before.panes
        &&& self.id_counter == before.id_counter
        &&& self.free_mode == before.free_mode
    }

    /// Moves the focus to the nearest pane in direction `dir` and returns
    /// its id. Of several panes at the same distance the one with the
    /// smallest id is taken. Without a pane in that direction, or without
    /// a rectangle for the focused pane, the focus stays and `None` is
    /// returned.
    pub fn move_focus(&mut self, dir: MoveDir) -> (r: Option<usize>)
        requires
            old(self).wf(),
        ensures
            final(self).wf(),
            final(self).focus_moved(old(self), dir, r),
    {
        let current: usize = self.current_layout;
        let cur: Rect = match self.pane_rects.get(&current) {
            Some(rect) => *rect,
            None => {
                return None;
            },
        };
        let mut best: Option<(usize, u32)> = None;
        for entry in it: self.pane_rects.iter()
            invariant
                current == self.current_layout,
                self.pane_rects@.contains_key(current),
                cur == self.pane_rects@[current],
                forall|k: usize| #[trigger]
                    self.pane_rects@.contains_key(k) ==> exists|j: int|
                        0 <= j < it.seq().len() && *(#[trigger] it.seq()[j]).0 == k,
                forall|j: int|
                    0 <= j < it.seq().len() ==> self.pane_rects@.contains_key(
                        *(#[trigger] it.seq()[j]).0,
                    ) && self.pane_rects@[*it.seq()[j].0] == *it.seq()[j].1,
                match best {
                    Some((b, d)) => self.is_target(dir, b) && d == self.distance(dir, b),
                    None => true,
                },
                forall|j: int|
                    0 <= j < it.index() && self.is_target(dir, *(#[trigger] it.seq()[j]).0)
                        ==> self.beats(dir, best, *it.seq()[j].0),
                it.index() == it.seq().len() ==> forall|other: usize| #[trigger]
                    self.is_target(dir, other) ==> self.beats(dir, best, other),
        {
            let (id, rect): (&usize, &Rect) = entry;
            let ghost before = best;
            proof {
                assert(entry == it.seq()[it.index() as int]);
            }
            if *id != current && is_beyond(dir, &cur, rect) {
                let dist: u32 = gap_between(dir, &cur, rect);
                match best {
                    None => {
                        best = Some((*id, dist));
                    },
                    Some((b, d)) => {
                        if dist < d || (dist == d && *id < b) {
                            best = Some((*id, dist));
                        }
                    },
                }
            }
            proof {
                assert forall|j: int|
                    0 <= j < it.index() + 1 && self.is_target(
                        dir,
                        *(#[trigger] it.seq()[j]).0,
                    ) implies self.beats(dir, best, *it.seq()[j].0) by {
                    if j < it.index() {
                        assert(self.beats(dir, before, *it.seq()[j].0));
                    }
                }
                assert forall|other: usize|
                    it.index() + 1 == it.seq().len() && #[trigger] self.is_target(
                        dir,
                        other,
                    ) implies self.beats(dir, best, other) by {
                    let j = choose|j: int|
                        0 <= j < it.seq().len() && *(#[trigger] it.seq()[j]).0 == other;
                    assert(self.is_target(dir, *it.seq()[j].0));
                }
            }
        }
        match best {
            Some((id, _)) => {
                proof {
                    assert(self.has_pane(id));
                    assert forall|other: usize| #[trigger]
                        self.is_target(dir, other) implies no_worse(
                        id,
                        self.distance(dir, id),
                        other,
                        self.distance(dir, other),
                    ) by {
                        assert(self.beats(dir, best, other));
                    }
                }
                self.current_layout = id;
                Some(id)
            },
            None => {
                proof {
                    assert forall|other: usize| !#[trigger] self.is_target(dir, other) by {
                        if self.is_target(dir, other) {
                            assert(self.beats(dir, best, other));
                        }
                    }
                }
                None
            },
        }
    }
}

impl LayoutManager {
    /// The focused pane, if a pane is open.
    pub open spec fn focused(&self) -> Option<LayoutNode> {
        match self.panes {
            Some(t) => t.find(self.current_layout),
            None => None,
        }
    }

    /// Whether the focus names a pane whose buffer `buf_m` holds.
    pub open spec fn focus_ready(&self, buf_m: &BufferManager) -> bool {
        self.focused() matches Some(p) && buf_m.has_id(p->buffer_id)
    }

    /// The buffer that the focused pane shows.
    pub open spec fn focused_buffer(&self, buf_m: &BufferManager) -> Buffer
        recommends
            self.focus_ready(buf_m),
    {
        buf_m.buffer(self.focused()->0->buffer_id)
    }

    /// Whether `e` is the error that an operation on the focused pane and
    /// its buffer gives: `PaneNotFound` without a focused pane, and
    /// `InvalidId`, wrapped, where no buffer has the pane's buffer id.
    pub open spec fn is_focus_error(&self, buf_m: &BufferManager, e: LayoutError) -> bool {
        match self.focused() {
            None => e is PaneNotFound,
            Some(p) => {
                &&& !buf_m.has_id(p->buffer_id)
                &&& e matches LayoutError::BufferErr(b)
                &&& b is InvalidId
            },
        }
    }

    /// Whether `self` is `before` with the focused pane replaced by `pane`.
    pub open spec fn focused_replaced(&self, before: &LayoutManager, pane: LayoutNode) -> bool {
        &&& before.panes matches Some(t)
        &&& self.panes == Some(t.spec_replace(before.current_layout, pane))
        &&& self.current_layout == before.current_layout
        &&& self.pane_rects == before.pane_rects
        &&& self.id_counter == before.id_counter
        &&& self.free_mode == before.free_mode
    }

    /// Whether `self` is `before` with the cursor of the focused pane at
    /// `c`.
    pub open spec fn cursor_moved(&self, before: &LayoutManager, c: (int, int)) -> bool {
        &&& before.focused() matches Some(p)
        &&& self.focused() matches Some(q)
        &&& q == p.with_cursor(q->cursor_pos)
        &&& (q->cursor_pos.0 as int, q->cursor_pos.1 as int) == c
        &&& self.focused_replaced(before, q)
    }

    /// A copy of the focused pane, if a pane is open.
    pub fn get_current_pane(&self) -> (r: Option<LayoutNode>)
        requires
            self.wf(),
        ensures
            r == self.focused(),
            r is Some <==> self.panes is Some,
            r matches Some(p) ==> p is Pane && p->id == self.current_layout,
    {
        match &self.panes {
            Some(t) => {
                match t.get_pane(self.current_layout) {
                    Some(p) => Some(p.clone()),
                    None => None,
                }
            },
            None => None,
        }
    }

    /// The focused pane for changing, if a pane is open. Whatever the
    /// caller leaves in it takes the pane's place in the tree.
    pub fn get_current_pane_mut(&mut self) -> (r: Option<&mut LayoutNode>)
        requires
            old(self).wf(),
        ensures
            match r {
                Some(p) => {
                    &&& old(self).focused() == Some(*p)
                    &&& *p is Pane
                    &&& (*p)->id == old(self).current_layout
                    &&& final(self).focused_replaced(old(self), *final(p))
                },
                None => old(self).panes is None && *final(self) == *old(self),
            },
    {
        let id: usize = self.current_layout;
        match &mut self.panes {
            Some(t) => t.get_pane_mut(id),
            None => None,
        }
    }

    /// The buffer that the focused pane shows.
    ///
    /// Fails with `PaneNotFound` if no pane is open, and with `InvalidId`,
    /// wrapped, if `buf_m` has no buffer under the pane's buffer id.
    pub fn get_current_buffer<'a>(&self, buf_m: &'a BufferManager) -> (r: Result<
        &'a Buffer,
        LayoutError,
    >)
        requires
            self.wf(),
            buf_m.wf(),
        ensures
            match r {
                Ok(b) => self.focus_ready(buf_m) && *b == self.focused_buffer(buf_m) && b.wf(),
                Err(e) => !self.focus_ready(buf_m) && self.is_focus_error(buf_m, e),
            },
    {
        let buffer_id: usize = match self.get_current_pane() {
            Some(LayoutNode::Pane { buffer_id, .. }) => buffer_id,
            _ => {
                return Err(LayoutError::PaneNotFound);
            },
        };
        match buf_m.get_buffer(buffer_id) {
            Ok(b) => Ok(b),
            Err(e) => Err(LayoutError::BufferErr(e)),
        }
    }

    /// The buffer that the focused pane shows, for changing. Whatever the
    /// caller leaves in it is what `buf_m` holds afterwards, in the same
    /// place.
    ///
    /// Fails with `PaneNotFound` if no pane is open, and with `InvalidId`,
    /// wrapped, if `buf_m` has no buffer under the pane's buffer id.
    pub fn get_current_buffer_mut<'a>(&self, buf_m: &'a mut BufferManager) -> (r: Result<
        &'a mut Buffer,
        LayoutError,
    >)
        requires
            self.wf(),
            old(buf_m).wf(),
        ensures
            match r {
                Ok(b) => {
                    &&& self.focus_ready(old(buf_m))
                    &&& *b == self.focused_buffer(old(buf_m))
                    &&& b.wf()
                    &&& final(buf_m).buffers@ == old(buf_m).buffers@.update(
                        old(buf_m).index_of(b.id),
                        *final(b),
                    )
                    &&& final(buf_m).current_buffer == old(buf_m).current_buffer
                    &&& final(buf_m).next_id == old(buf_m).next_id
                },
                Err(e) => {
                    &&& !self.focus_ready(old(buf_m))
                    &&& self.is_focus_error(old(buf_m), e)
                    &&& *final(buf_m) == *old(buf_m)
                },
            },
    {
        let buffer_id: usize = match self.get_current_pane() {
            Some(LayoutNode::Pane { buffer_id, .. }) => buffer_id,
            _ => {
                return Err(LayoutError::PaneNotFound);
            },
        };
        match buf_m.get_buffer_mut(buffer_id) {
            Ok(b) => Ok(b),
            Err(e) => Err(LayoutError::BufferErr(e)),
        }
    }

    /// Makes the focused pane show buffer `id`. Fails with `PaneNotFound`,
    /// changing nothing, if no pane is open.
    pub fn change_current_buffer_id(&mut self, id: usize) -> (r: Result<(), LayoutError>)
        requires
            old(self).wf(),
        ensures
            final(self).wf(),
            match r {
                Ok(()) => {
                    &&& old(self).focused() matches Some(p)
                    &&& final(self).focused() == Some(p.with_buffer(id))
                    &&& final(self).focused_replaced(old(self), p.with_buffer(id))
                },
                Err(e) => e is PaneNotFound && old(self).panes is None && *final(self) == *old(
                    self,
                ),
            },
    {
        let ghost tree = old(self).panes->0;
        let cur: usize = self.current_layout;
        match self.get_current_pane_mut() {
            Some(pane) => {
                let ghost p = *pane;
                match pane {
                    LayoutNode::Pane { buffer_id, .. } => {
                        *buffer_id = id;
                    },
                    _ => {},
                }
                proof {
                    lemma_focused_replaced(*old(self), *self, p.with_buffer(id));
                }
                Ok(())
            },
            None => Err(LayoutError::PaneNotFound),
        }
    }
}

impl LayoutManager {
    /// The buffer id and the cursor of the focused pane, once it is known
    /// that `buf_m` holds that buffer.
    pub fn focus_info(&self, buf_m: &BufferManager) -> (r: Result<
        (usize, (usize, usize)),
        LayoutError,
    >)
        requires
            self.wf(),
            buf_m.wf(),
        ensures
            match r {
                Ok((buffer_id, cursor)) => {
                    &&& self.focus_ready(buf_m)
                    &&& self.focused()->0->buffer_id == buffer_id
                    &&& self.focused()->0->cursor_pos == cursor
                },
                Err(e) => !self.focus_ready(buf_m) && self.is_focus_error(buf_m, e),
            },
    {
        match self.get_current_pane() {
            Some(LayoutNode::Pane { buffer_id, cursor_pos, .. }) => {
                match buf_m.get_buffer(buffer_id) {
                    Ok(_) => Ok((buffer_id, cursor_pos)),
                    Err(e) => Err(LayoutError::BufferErr(e)),
                }
            },
            _ => Err(LayoutError::PaneNotFound),
        }
    }

    /// Puts the cursor of the focused pane at `pos`. Without a pane
    /// nothing happens.
    pub fn set_cursor(&mut self, pos: (usize, usize))
        requires
            old(self).wf(),
        ensures
            final(self).wf(),
            match old(self).focused() {
                Some(p) => {
                    &&& final(self).cursor_moved(old(self), pos_int(pos))
                    &&& final(self).focused() == Some(p.with_cursor(pos))
                },
                None => old(self).panes is None && *final(self) == *old(self),
            },
    {
        proof {
            if old(self).panes is Some {
                lemma_find(old(self).panes->0, old(self).current_layout);
            }
        }
        match self.get_current_pane_mut() {
            Some(pane) => {
                let ghost p = *pane;
                match pane {
                    LayoutNode::Pane { cursor_pos, .. } => {
                        *cursor_pos = pos;
                    },
                    _ => {},
                }
                proof {
                    lemma_focused_replaced(*old(self), *self, p.with_cursor(pos));
                }
            },
            None => {},
        }
    }

    /// Moves the cursor of the focused pane one cluster to the right. A
    /// cursor below the last line is taken to stand on the last line. At
    /// the end of a line, or past it, the cursor goes on to the next line
    /// only in free mode, and stays otherwise.
    ///
    /// Fails as [`LayoutManager::get_current_buffer`] does, changing
    /// nothing.
    pub fn mv_cursor_right(&mut self, buf_m: &mut BufferManager) -> (r: Result<(), LayoutError>)
        requires
            old(self).wf(),
            old(buf_m).wf(),
        ensures
            final(self).wf(),
            *final(buf_m) == *old(buf_m),
            match r {
                Ok(()) => {
                    let lines = old(self).focused_buffer(old(buf_m)).lines();
                    &&& old(self).focus_ready(old(buf_m))
                    &&& final(self).cursor_moved(
                        old(self),
                        cursor_right(
                            lines,
                            clamp_line(lines, pos_int(old(self).focused()->0->cursor_pos)),
                            old(self).free_mode,
                        ),
                    )
                },
                Err(e) => {
                    &&& !old(self).focus_ready(old(buf_m))
                    &&& old(self).is_focus_error(old(buf_m), e)
                    &&& *final(self) == *old(self)
                },
            },
    {
        let (buffer_id, cursor): (usize, (usize, usize)) = match self.focus_info(buf_m) {
            Ok(info) => info,
            Err(e) => {
                return Err(e);
            },
        };
        let pos: (usize, usize) = match buf_m.get_buffer(buffer_id) {
            Ok(buf) => move_right(&buf.content, cursor, self.free_mode),
            Err(e) => {
                return Err(LayoutError::BufferErr(e));
            },
        };
        self.set_cursor(pos);
        Ok(())
    }

    /// Moves the cursor of the focused pane one cluster to the left. A
    /// cursor below the last line is taken to stand on the last line. At
    /// the start of a line the cursor goes back to the line before only in
    /// free mode, and stays otherwise.
    ///
    /// Fails as [`LayoutManager::get_current_buffer`] does, changing
    /// nothing.
    pub fn mv_cursor_left(&mut self, buf_m: &mut BufferManager) -> (r: Result<(), LayoutError>)
        requires
            old(self).wf(),
            old(buf_m).wf(),
        ensures
            final(self).wf(),
            *final(buf_m) == *old(buf_m),
            match r {
                Ok(()) => {
                    let lines = old(self).focused_buffer(old(buf_m)).lines();
                    &&& old(self).focus_ready(old(buf_m))
                    &&& final(self).cursor_moved(
                        old(self),
                        cursor_left(
                            lines,
                            clamp_line(lines, pos_int(old(self).focused()->0->cursor_pos)),
                            old(self).free_mode,
                        ),
                    )
                },
                Err(e) => {
                    &&& !old(self).focus_ready(old(buf_m))
                    &&& old(self).is_focus_error(old(buf_m), e)
                    &&& *final(self) == *old(self)
                },
            },
    {
        let (buffer_id, cursor): (usize, (usize, usize)) = match self.focus_info(buf_m) {
            Ok(info) => info,
            Err(e) => {
                return Err(e);
            },
        };
        let pos: (usize, usize) = match buf_m.get_buffer(buffer_id) {
            Ok(buf) => move_left(&buf.content, cursor, self.free_mode),
            Err(e) => {
                return Err(LayoutError::BufferErr(e));
            },
        };
        self.set_cursor(pos);
        Ok(())
    }

    /// Moves the cursor of the focused pane one line up. A cursor below
    /// the last line is taken to stand on the last line. The new column is
    /// the old one, or the length of the line above if that is less. On
    /// the first line nothing changes.
    ///
    /// Fails as [`LayoutManager::get_current_buffer`] does, changing
    /// nothing.
    pub fn mv_cursor_up(&mut self, buf_m: &mut BufferManager) -> (r: Result<(), LayoutError>)
        requires
            old(self).wf(),
            old(buf_m).wf(),
        ensures
            final(self).wf(),
            *final(buf_m) == *old(buf_m),
            match r {
                Ok(()) => {
                    let lines = old(self).focused_buffer(old(buf_m)).lines();
                    &&& old(self).focus_ready(old(buf_m))
                    &&& final(self).cursor_moved(
                        old(self),
                        cursor_up(
                            lines,
                            clamp_line(lines, pos_int(old(self).focused()->0->cursor_pos)),
                        ),
                    )
                },
                Err(e) => {
                    &&& !old(self).focus_ready(old(buf_m))
                    &&& old(self).is_focus_error(old(buf_m), e)
                    &&& *final(self) == *old(self)
                },
            },
    {
        let (buffer_id, cursor): (usize, (usize, usize)) = match self.focus_info(buf_m) {
            Ok(info) => info,
            Err(e) => {
                return Err(e);
            },
        };
        let pos: (usize, usize) = match buf_m.get_buffer(buffer_id) {
            Ok(buf) => move_up(&buf.content, cursor),
            Err(e) => {
                return Err(LayoutError::BufferErr(e));
            },
        };
        self.set_cursor(pos);
        Ok(())
    }

    /// Moves the cursor of the focused pane one line down. A cursor below
    /// the last line is taken to stand on the last line. The new column is
    /// the old one, or the length of the line below if that is less. On
    /// the last line the cursor stays, unless free mode
    /// is on: then an empty line is appended to the buffer, as a logged
    /// edit, and the cursor goes to it.
    ///
    /// Fails as [`LayoutManager::get_current_buffer`] does, changing
    /// nothing.
    pub fn mv_cursor_down(&mut self, buf_m: &mut BufferManager) -> (r: Result<(), LayoutError>)
        requires
            old(self).wf(),
            old(buf_m).wf(),
        ensures
            final(self).wf(),
            final(buf_m).wf(),
            match r {
                Ok(()) => {
                    let lines = old(self).focused_buffer(old(buf_m)).lines();
                    let c = clamp_line(lines, pos_int(old(self).focused()->0->cursor_pos));
                    &&& old(self).focus_ready(old(buf_m))
                    &&& if c.1 + 1 < lines.len() || !old(self).free_mode {
                        &&& final(self).cursor_moved(old(self), cursor_down(lines, c))
                        &&& *final(buf_m) == *old(buf_m)
                    } else {
                        &&& final(self).cursor_moved(old(self), (0int, c.1 + 1))
                        &&& final(buf_m).buffer_edited(
                            old(buf_m),
                            old(self).focused()->0->buffer_id,
                            lines.push(Seq::empty()),
                        )
                    }
                },
                Err(e) => {
                    &&& !old(self).focus_ready(old(buf_m))
                    &&& old(self).is_focus_error(old(buf_m), e)
                    &&& *final(self) == *old(self)
                    &&& *final(buf_m) == *old(buf_m)
                },
            },
    {
        let (buffer_id, cursor): (usize, (usize, usize)) = match self.focus_info(buf_m) {
            Ok(info) => info,
            Err(e) => {
                return Err(e);
            },
        };
        let free: bool = self.free_mode;
        let (stay, moved): (bool, (usize, usize)) = match buf_m.get_buffer(buffer_id) {
            Ok(buf) => {
                let (_x, y): (usize, usize) = clamp_line_pos(&buf.content, cursor);
                (y + 1 < buf.content.len() || !free, move_down(&buf.content, cursor))
            },
            Err(e) => {
                return Err(LayoutError::BufferErr(e));
            },
        };
        if stay {
            self.set_cursor(moved);
            return Ok(());
        }
        let buf: &mut Buffer = match buf_m.get_buffer_mut(buffer_id) {
            Ok(buf) => buf,
            Err(e) => {
                return Err(LayoutError::BufferErr(e));
            },
        };
        let at: usize = buf.content.len();
        let ghost before = buf.lines();
        match buf.insert_line(at) {
            Ok(()) => {
                proof {
                    assert(before.insert(at as int, Seq::empty()) =~= before.push(Seq::empty()));
                }
            },
            Err(_) => {
                assert(false);
            },
        }
        proof {
            lemma_replace_keeps_wf(*old(buf_m), *buf_m, buffer_id);
        }
        self.set_cursor((0, at));
        Ok(())
    }

    /// Moves the cursor of the focused pane to the end of its line, after
    /// pulling it back into its buffer.
    ///
    /// Fails as [`LayoutManager::get_current_buffer`] does, changing
    /// nothing.
    pub fn mv_cursor_tail(&mut self, buf_m: &mut BufferManager) -> (r: Result<(), LayoutError>)
        requires
            old(self).wf(),
            old(buf_m).wf(),
        ensures
            final(self).wf(),
            *final(buf_m) == *old(buf_m),
            match r {
                Ok(()) => {
                    let lines = old(self).focused_buffer(old(buf_m)).lines();
                    let c = clamp_cursor(lines, pos_int(old(self).focused()->0->cursor_pos));
                    &&& old(self).focus_ready(old(buf_m))
                    &&& final(self).cursor_moved(
                        old(self),
                        (cluster_count(lines[c.1]) as int, c.1),
                    )
                },
                Err(e) => {
                    &&& !old(self).focus_ready(old(buf_m))
                    &&& old(self).is_focus_error(old(buf_m), e)
                    &&& *final(self) == *old(self)
                },
            },
    {
        let (buffer_id, cursor): (usize, (usize, usize)) = match self.focus_info(buf_m) {
            Ok(info) => info,
            Err(e) => {
                return Err(e);
            },
        };
        let pos: (usize, usize) = match buf_m.get_buffer(buffer_id) {
            Ok(buf) => {
                let (_x, y): (usize, usize) = clamp_pos(&buf.content, cursor);
                (get_line_len(&buf.content[y]), y)
            },
            Err(e) => {
                return Err(LayoutError::BufferErr(e));
            },
        };
        self.set_cursor(pos);
        Ok(())
    }

    /// Moves the cursor of the focused pane to the start of its line.
    /// Fails with `PaneNotFound`, changing nothing, if no pane is open.
    pub fn mv_cursor_head(&mut self) -> (r: Result<(), LayoutError>)
        requires
            old(self).wf(),
        ensures
            final(self).wf(),
            match r {
                Ok(()) => {
                    &&& old(self).focused() matches Some(p)
                    &&& final(self).cursor_moved(old(self), (0int, p->cursor_pos.1 as int))
                },
                Err(e) => e is PaneNotFound && old(self).panes is None && *final(self) == *old(
                    self,
                ),
            },
    {
        match self.get_current_pane() {
            Some(LayoutNode::Pane { cursor_pos, .. }) => {
                self.set_cursor((0, cursor_pos.1));
                Ok(())
            },
            _ => Err(LayoutError::PaneNotFound),
        }
    }

    /// Backspace in the focused pane, after pulling its cursor back into
    /// its buffer. Inside a line the cluster before the cursor is removed;
    /// at the start of a line the line is joined to the one before; at the
    /// start of the buffer nothing is removed. The cursor ends where the
    /// removed cluster or line break was.
    ///
    /// Fails as [`LayoutManager::get_current_buffer`] does, changing
    /// nothing.
    pub fn handle_backspace(&mut self, buf_m: &mut BufferManager) -> (r: Result<(), LayoutError>)
        requires
            old(self).wf(),
            old(buf_m).wf(),
        ensures
            final(self).wf(),
            final(buf_m).wf(),
            match r {
                Ok(()) => {
                    let id = old(self).focused()->0->buffer_id;
                    let lines = old(self).focused_buffer(old(buf_m)).lines();
                    let c = clamp_cursor(lines, pos_int(old(self).focused()->0->cursor_pos));
                    &&& old(self).focus_ready(old(buf_m))
                    &&& if c.0 > 0 {
                        &&& final(self).cursor_moved(old(self), (c.0 - 1, c.1))
                        &&& final(buf_m).buffer_edited(
                            old(buf_m),
                            id,
                            doc_delete(lines, (c.0 - 1, c.1), 1),
                        )
                    } else if c.1 > 0 {
                        &&& final(self).cursor_moved(
                            old(self),
                            (cluster_count(lines[c.1 - 1]) as int, c.1 - 1),
                        )
                        &&& final(buf_m).buffer_edited(old(buf_m), id, doc_join(lines, c.1))
                    } else {
                        &&& final(self).cursor_moved(old(self), c)
                        &&& *final(buf_m) == *old(buf_m)
                    }
                },
                Err(e) => {
                    &&& !old(self).focus_ready(old(buf_m))
                    &&& old(self).is_focus_error(old(buf_m), e)
                    &&& *final(self) == *old(self)
                    &&& *final(buf_m) == *old(buf_m)
                },
            },
    {
        let (buffer_id, cursor): (usize, (usize, usize)) = match self.focus_info(buf_m) {
            Ok(info) => info,
            Err(e) => {
                return Err(e);
            },
        };
        let (x, y): (usize, usize) = match buf_m.get_buffer(buffer_id) {
            Ok(buf) => clamp_pos(&buf.content, cursor),
            Err(e) => {
                return Err(LayoutError::BufferErr(e));
            },
        };
        if x == 0 && y == 0 {
            self.set_cursor((x, y));
            return Ok(());
        }
        let buf: &mut Buffer = match buf_m.get_buffer_mut(buffer_id) {
            Ok(buf) => buf,
            Err(e) => {
                return Err(LayoutError::BufferErr(e));
            },
        };
        let pos: (usize, usize) = if x > 0 {
            match buf.delete(1, (x - 1, y)) {
                Ok(()) => {},
                Err(_) => {
                    assert(false);
                },
            }
            (x - 1, y)
        } else {
            let prev_len: usize = get_line_len(&buf.content[y - 1]);
            match buf.join_line_with_previous(y) {
                Ok(()) => {},
                Err(_) => {
                    assert(false);
                },
            }
            (prev_len, y - 1)
        };
        proof {
            lemma_replace_keeps_wf(*old(buf_m), *buf_m, buffer_id);
        }
        self.set_cursor(pos);
        Ok(())
    }

    /// Enter in the focused pane, after pulling its cursor back into its
    /// buffer: the line is cut at the cursor, and the cursor goes to the
    /// start of the new line.
    ///
    /// Fails as [`LayoutManager::get_current_buffer`] does, changing
    /// nothing.
    pub fn handle_enter(&mut self, buf_m: &mut BufferManager) -> (r: Result<(), LayoutError>)
        requires
            old(self).wf(),
            old(buf_m).wf(),
        ensures
            final(self).wf(),
            final(buf_m).wf(),
            match r {
                Ok(()) => {
                    let id = old(self).focused()->0->buffer_id;
                    let lines = old(self).focused_buffer(old(buf_m)).lines();
                    let c = clamp_cursor(lines, pos_int(old(self).focused()->0->cursor_pos));
                    &&& old(self).focus_ready(old(buf_m))
                    &&& final(self).cursor_moved(old(self), (0int, c.1 + 1))
                    &&& final(buf_m).buffer_edited(old(buf_m), id, doc_split(lines, c))
                },
                Err(e) => {
                    &&& !old(self).focus_ready(old(buf_m))
                    &&& old(self).is_focus_error(old(buf_m), e)
                    &&& *final(self) == *old(self)
                    &&& *final(buf_m) == *old(buf_m)
                },
            },
    {
        let (buffer_id, cursor): (usize, (usize, usize)) = match self.focus_info(buf_m) {
            Ok(info) => info,
            Err(e) => {
                return Err(e);
            },
        };
        let buf: &mut Buffer = match buf_m.get_buffer_mut(buffer_id) {
            Ok(buf) => buf,
            Err(e) => {
                return Err(LayoutError::BufferErr(e));
            },
        };
        let (x, y): (usize, usize) = clamp_pos(&buf.content, cursor);
        match buf.split_line_at((x, y)) {
            Ok(()) => {},
            Err(_) => {
                assert(false);
            },
        }
        proof {
            lemma_replace_keeps_wf(*old(buf_m), *buf_m, buffer_id);
        }
        self.set_cursor((0, y + 1));
        Ok(())
    }
}

impl LayoutManager {
    /// Pulls the cursor of the focused pane back into its buffer, as is
    /// needed after the buffer has become shorter.
    ///
    /// Fails as [`LayoutManager::get_current_buffer`] does, changing
    /// nothing.
    pub fn check_cursor_bounds(&mut self, buf_m: &BufferManager) -> (r: Result<(), LayoutError>)
        requires
            old(self).wf(),
            buf_m.wf(),
        ensures
            final(self).wf(),
            match r {
                Ok(()) => {
                    let lines = old(self).focused_buffer(buf_m).lines();
                    &&& old(self).focus_ready(buf_m)
                    &&& final(self).cursor_moved(
                        old(self),
                        clamp_cursor(lines, pos_int(old(self).focused()->0->cursor_pos)),
                    )
                },
                Err(e) => {
                    &&& !old(self).focus_ready(buf_m)
                    &&& old(self).is_focus_error(buf_m, e)
                    &&& *final(self) == *old(self)
                },
            },
    {
        let (buffer_id, cursor): (usize, (usize, usize)) = match self.focus_info(buf_m) {
            Ok(info) => info,
            Err(e) => {
                return Err(e);
            },
        };
        let pos: (usize, usize) = match buf_m.get_buffer(buffer_id) {
            Ok(buf) => clamp_pos(&buf.content, cursor),
            Err(e) => {
                return Err(LayoutError::BufferErr(e));
            },
        };
        self.set_cursor(pos);
        Ok(())
    }
}

/// Pulls a pane's cursor back into buffer `buffer_id`: onto the last line
/// if it is below, and onto the end of its line if it is past it.
///
/// Fails with `InvalidId`, wrapped, and changes nothing if `buf_m` holds
/// no such buffer.
pub fn check_cursor_pos(buf_m: &BufferManager, cursor_pos: &mut (usize, usize), buffer_id: usize) -> (r:
    Result<(), LayoutError>)
    requires
        buf_m.wf(),
    ensures
        match r {
            Ok(()) => {
                &&& buf_m.has_id(buffer_id)
                &&& pos_int(*final(cursor_pos)) == clamp_cursor(
                    buf_m.buffer(buffer_id).lines(),
                    pos_int(*old(cursor_pos)),
                )
            },
            Err(e) => {
                &&& !buf_m.has_id(buffer_id)
                &&& e matches LayoutError::BufferErr(b)
                &&& b is InvalidId
                &&& *final(cursor_pos) == *old(cursor_pos)
            },
        },
{
    match buf_m.get_buffer(buffer_id) {
        Ok(buf) => {
            *cursor_pos = clamp_pos(&buf.content, *cursor_pos);
            Ok(())
        },
        Err(e) => Err(LayoutError::BufferErr(e)),
    }
}

/// Brings a pane's view up to date with buffer `buffer_id`: pulls the
/// cursor back into the buffer, then moves the scroll offset so that the
/// cursor lies inside a viewport of `viewport_width` columns and
/// `viewport_height` rows with the margins `scroll_thres`; see
/// [`scroll_axis`]. On an axis whose viewport is larger than its margin
/// the cursor is then visible, with the margin in full between it and the
/// far edge.
///
/// Fails with `InvalidId`, wrapped, and changes nothing if `buf_m` holds
/// no such buffer.
pub fn update_scroll(
    buf_m: &BufferManager,
    viewport_height: usize,
    viewport_width: usize,
    cursor_pos: &mut (usize, usize),
    scroll_offset: &mut (usize, usize),
    scroll_thres: &mut (usize, usize),
    buffer_id: usize,
) -> (r: Result<(), LayoutError>)
    requires
        buf_m.wf(),
    ensures
        *final(scroll_thres) == *old(scroll_thres),
        match r {
            Ok(()) => {
                let c = clamp_cursor(buf_m.buffer(buffer_id).lines(), pos_int(*old(cursor_pos)));
                &&& buf_m.has_id(buffer_id)
                &&& pos_int(*final(cursor_pos)) == c
                &&& cursor_in_view(
                    c,
                    (viewport_width as int, viewport_height as int),
                    pos_int(*old(scroll_thres)),
                    pos_int(*final(scroll_offset)),
                )
                &&& final(scroll_offset).0 == scroll_axis(
                    c.0,
                    viewport_width as int,
                    old(scroll_thres).0 as int,
                    old(scroll_offset).0 as int,
                )
                &&& final(scroll_offset).1 == scroll_axis(
                    c.1,
                    viewport_height as int,
                    old(scroll_thres).1 as int,
                    old(scroll_offset).1 as int,
                )
            },
            Err(e) => {
                &&& !buf_m.has_id(buffer_id)
                &&& e matches LayoutError::BufferErr(b)
                &&& b is InvalidId
                &&& *final(cursor_pos) == *old(cursor_pos)
                &&& *final(scroll_offset) == *old(scroll_offset)
            },
        },
{
    match buf_m.get_buffer(buffer_id) {
        Ok(buf) => {
            *cursor_pos = clamp_pos(&buf.content, *cursor_pos);
            *scroll_offset = compute_scroll(
                *cursor_pos,
                (viewport_width, viewport_height),
                *scroll_thres,
                *scroll_offset,
            );
            Ok(())
        },
        Err(e) => Err(LayoutError::BufferErr(e)),
    }
}

/// Replacing the focused pane by a pane with the same id keeps a manager
/// well formed, and the new pane is then the focused one.
pub proof fn lemma_focused_replaced(before: LayoutManager, after: LayoutManager, pane: LayoutNode)
    requires
        before.wf(),
        before.panes is Some,
        pane is Pane,
        pane->id == before.current_layout,
        after.focused_replaced(&before, pane),
    ensures
        after.wf(),
        after.focused() == Some(pane),
        after.panes->0.pane_ids() == before.panes->0.pane_ids(),
{
    let t = before.panes->0;
    let r = after.panes->0;
    lemma_replace_pane(t, before.current_layout, pane);
    assert forall|id: usize| #[trigger] r.contains(id) implies id < after.id_counter by {
        assert(t.contains(id));
    }
    assert forall|id: usize| #[trigger]
        after.pane_rects@.contains_key(id) implies after.has_pane(id) by {
        assert(before.has_pane(id));
        assert(t.contains(id));
    }
}

} // verus!
