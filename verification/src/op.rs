//! Reversible descriptions of single edits.

use crate::grapheme::cluster_count;
use vstd::prelude::*;

verus! {

/// One content mutation. Positions are `(char_x, line_y)` pairs counted in
/// grapheme clusters and lines, both from zero. Each variant carries the
/// text that it inserts or removes, so its inverse needs nothing else.
#[derive(Debug)]
pub enum EditOp {
    /// Insert `text`, `len` clusters long, at `pos`.
    Insert { pos: (usize, usize), text: String, len: usize },
    /// Remove `text`, `len` clusters long, from `pos` on.
    Delete { pos: (usize, usize), text: String, len: usize },
    /// Insert a line holding `text` so that it becomes line `y`.
    InsertLine { y: usize, text: String },
    /// Remove line `y`, which holds `text`.
    DeleteLine { y: usize, text: String },
    /// Remove the text between `start_pos` and `end_pos`; `text` is what
    /// was there, with a line feed for every line break.
    DeleteBlock { start_pos: (usize, usize), end_pos: (usize, usize), text: String },
    /// Insert `text` at `start_pos`; afterwards it ends at `end_pos`.
    InsertBlock { start_pos: (usize, usize), end_pos: (usize, usize), text: String },
}

impl Clone for EditOp {
    fn clone(&self) -> (r: Self)
        ensures
            r == *self,
    {
        match self {
            Self::Insert { pos, text, len } => Self::Insert {
                pos: *pos,
                text: text.clone(),
                len: *len,
            },
            Self::Delete { pos, text, len } => Self::Delete {
                pos: *pos,
                text: text.clone(),
                len: *len,
            },
            Self::InsertLine { y, text } => Self::InsertLine { y: *y, text: text.clone() },
            Self::DeleteLine { y, text } => Self::DeleteLine { y: *y, text: text.clone() },
            Self::DeleteBlock { start_pos, end_pos, text } => Self::DeleteBlock {
                start_pos: *start_pos,
                end_pos: *end_pos,
                text: text.clone(),
            },
            Self::InsertBlock { start_pos, end_pos, text } => Self::InsertBlock {
                start_pos: *start_pos,
                end_pos: *end_pos,
                text: text.clone(),
            },
        }
    }
}

impl EditOp {
    /// The edit that undoes `self`: the same place and text, inserting
    /// where `self` removes and removing where `self` inserts.
    pub open spec fn spec_inverse(self) -> EditOp {
        match self {
            EditOp::Insert { pos, text, len } => EditOp::Delete { pos, text, len },
            EditOp::Delete { pos, text, len } => EditOp::Insert { pos, text, len },
            EditOp::InsertLine { y, text } => EditOp::DeleteLine { y, text },
            EditOp::DeleteLine { y, text } => EditOp::InsertLine { y, text },
            EditOp::DeleteBlock { start_pos, end_pos, text } => EditOp::InsertBlock {
                start_pos,
                end_pos,
                text,
            },
            EditOp::InsertBlock { start_pos, end_pos, text } => EditOp::DeleteBlock {
                start_pos,
                end_pos,
                text,
            },
        }
    }

    /// Whether `self` adds text to a document.
    pub open spec fn is_insertion(self) -> bool {
        self is Insert || self is InsertLine || self is InsertBlock
    }

    /// The text that `self` inserts or removes.
    pub open spec fn spec_text(self) -> Seq<char> {
        match self {
            EditOp::Insert { text, .. } => text@,
            EditOp::Delete { text, .. } => text@,
            EditOp::InsertLine { text, .. } => text@,
            EditOp::DeleteLine { text, .. } => text@,
            EditOp::DeleteBlock { text, .. } => text@,
            EditOp::InsertBlock { text, .. } => text@,
        }
    }

    /// Whether `self` is the insertion of `text` at `pos`, with the length
    /// of `text` in clusters.
    pub open spec fn inserts(self, pos: (usize, usize), text: Seq<char>) -> bool {
        &&& self matches EditOp::Insert { pos: p, text: t, len }
        &&& p == pos
        &&& t@ == text
        &&& len == cluster_count(text)
    }

    /// Whether `self` is the removal of the `len` clusters at `pos`, which
    /// were `text`.
    pub open spec fn deletes(self, pos: (usize, usize), text: Seq<char>, len: usize) -> bool {
        &&& self matches EditOp::Delete { pos: p, text: t, len: n }
        &&& p == pos
        &&& t@ == text
        &&& n == len
    }

    /// Whether `self` is the insertion of a line holding `text` as line
    /// `y`.
    pub open spec fn inserts_line(self, y: usize, text: Seq<char>) -> bool {
        &&& self matches EditOp::InsertLine { y: at, text: t }
        &&& at == y
        &&& t@ == text
    }

    /// Whether `self` is the removal of line `y`, which held `text`.
    pub open spec fn deletes_line(self, y: usize, text: Seq<char>) -> bool {
        &&& self matches EditOp::DeleteLine { y: at, text: t }
        &&& at == y
        &&& t@ == text
    }

    /// Whether `self` is the insertion of the block `text` at `start`,
    /// after which the block ends at `end`.
    pub open spec fn inserts_block(
        self,
        start: (usize, usize),
        end: (usize, usize),
        text: Seq<char>,
    ) -> bool {
        &&& self matches EditOp::InsertBlock { start_pos, end_pos, text: t }
        &&& start_pos == start
        &&& end_pos == end
        &&& t@ == text
    }

    /// Whether `self` is the removal of the block between `start` and
    /// `end`, which was `text`.
    pub open spec fn deletes_block(
        self,
        start: (usize, usize),
        end: (usize, usize),
        text: Seq<char>,
    ) -> bool {
        &&& self matches EditOp::DeleteBlock { start_pos, end_pos, text: t }
        &&& start_pos == start
        &&& end_pos == end
        &&& t@ == text
    }

    /// Builds the inverse edit.
    pub fn inverse(&self) -> (r: Self)
        ensures
            r == self.spec_inverse(),
    {
        match self {
            Self::Insert { pos, text, len } => Self::Delete {
                pos: *pos,
                text: text.clone(),
                len: *len,
            },
            Self::Delete { pos, text, len } => Self::Insert {
                pos: *pos,
                text: text.clone(),
                len: *len,
            },
            Self::InsertLine { y, text } => Self::DeleteLine { y: *y, text: text.clone() },
            Self::DeleteLine { y, text } => Self::InsertLine { y: *y, text: text.clone() },
            Self::DeleteBlock { start_pos, end_pos, text } => Self::InsertBlock {
                start_pos: *start_pos,
                end_pos: *end_pos,
                text: text.clone(),
            },
            Self::InsertBlock { start_pos, end_pos, text } => Self::DeleteBlock {
                start_pos: *start_pos,
                end_pos: *end_pos,
                text: text.clone(),
            },
        }
    }
}

/// Inverting an edit twice gives the edit back, and inverting turns an
/// insertion into a removal of the same text and the other way round.
pub proof fn lemma_inverse_involution(op: EditOp)
    ensures
        op.spec_inverse().spec_inverse() == op,
        op.spec_inverse().is_insertion() == !op.is_insertion(),
        op.spec_inverse().spec_text() == op.spec_text(),
{
}

} // verus!
