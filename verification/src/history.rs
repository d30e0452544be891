//! The undo history of a document, as a mathematical model.
//!
//! A history is the log of the edits that were applied, the contents that
//! the document went through, and a cursor into both. Edits before the
//! cursor are in effect; edits from the cursor on were undone and can be
//! redone.

use crate::document::{apply_spec, Lines};
use crate::op::EditOp;
use vstd::prelude::*;

verus! {

/// Undo history. `ops` is the undo log and `ptr` its cursor: `ops[i]` led
/// from the content `states[i]` to the content `states[i + 1]`, and
/// `states[ptr]` is the content in effect.
pub struct History {
    pub states: Seq<Lines>,
    pub ops: Seq<EditOp>,
    pub ptr: int,
}

impl History {
    /// The cursor lies within the log, there is a content before and
    /// after every logged edit, every content has at least one line, and
    /// every logged edit made the content after it out of the content
    /// before it.
    pub open spec fn wf(self) -> bool {
        &&& 0 <= self.ptr <= self.ops.len()
        &&& self.states.len() == self.ops.len() + 1
        &&& forall|i: int| 0 <= i < self.states.len() ==> (#[trigger] self.states[i]).len() >= 1
        &&& forall|i: int|
            0 <= i < self.ops.len() ==> apply_spec(self.states[i], #[trigger] self.ops[i]) == Some(
                self.states[i + 1],
            )
    }

    /// The content that is in effect.
    pub open spec fn current(self) -> Lines {
        self.states[self.ptr]
    }

    /// A history that starts with `lines` and an empty log.
    pub open spec fn start(lines: Lines) -> History {
        History { states: seq![lines], ops: Seq::empty(), ptr: 0 }
    }

    /// Logs `op`, which made `lines` out of the current content: what
    /// could be redone is dropped, `op` is appended to the log, and
    /// `lines` becomes current.
    pub open spec fn record(self, op: EditOp, lines: Lines) -> History {
        History {
            states: self.states.take(self.ptr + 1).push(lines),
            ops: self.ops.take(self.ptr).push(op),
            ptr: self.ptr + 1,
        }
    }

    /// One step back; nothing where no edit is in effect.
    pub open spec fn undo(self) -> History {
        if self.ptr > 0 {
            History { states: self.states, ops: self.ops, ptr: self.ptr - 1 }
        } else {
            self
        }
    }

    /// One step forward; nothing where no edit can be redone.
    pub open spec fn redo(self) -> History {
        if self.ptr < self.ops.len() {
            History { states: self.states, ops: self.ops, ptr: self.ptr + 1 }
        } else {
            self
        }
    }

    /// `n` steps back.
    pub open spec fn undo_n(self, n: nat) -> History
        decreases n,
    {
        if n == 0 {
            self
        } else {
            self.undo().undo_n((n - 1) as nat)
        }
    }

    /// `n` steps forward.
    pub open spec fn redo_n(self, n: nat) -> History
        decreases n,
    {
        if n == 0 {
            self
        } else {
            self.redo().redo_n((n - 1) as nat)
        }
    }
}

/// `n` steps back move the cursor down by `n` and leave log and contents
/// alone, as long as that many edits are in effect.
pub proof fn lemma_undo_n(h: History, n: nat)
    requires
        h.wf(),
        n <= h.ptr,
    ensures
        h.undo_n(n) == (History { states: h.states, ops: h.ops, ptr: h.ptr - n }),
        h.undo_n(n).wf(),
    decreases n,
{
    if n > 0 {
        lemma_undo_n(h.undo(), (n - 1) as nat);
    }
}

/// `n` steps forward move the cursor up by `n` and leave log and contents
/// alone, as long as that many edits can be redone.
pub proof fn lemma_redo_n(h: History, n: nat)
    requires
        h.wf(),
        h.ptr + n <= h.ops.len(),
    ensures
        h.redo_n(n) == (History { states: h.states, ops: h.ops, ptr: h.ptr + n }),
        h.redo_n(n).wf(),
    decreases n,
{
    if n > 0 {
        lemma_redo_n(h.redo(), (n - 1) as nat);
    }
}

/// Undoing `n` times and then redoing `n` times brings back the same
/// history, and so the same content, for every `n` up to the number of
/// edits in effect.
pub proof fn lemma_undo_redo_inverse(h: History, n: nat)
    requires
        h.wf(),
        n <= h.ptr,
    ensures
        h.undo_n(n).redo_n(n) == h,
        h.undo_n(n).redo_n(n).current() == h.current(),
{
    lemma_undo_n(h, n);
    lemma_redo_n(h.undo_n(n), n);
}

/// Redoing `n` times and then undoing `n` times brings back the same
/// history, for every `n` up to the number of edits that can be redone.
pub proof fn lemma_redo_undo_inverse(h: History, n: nat)
    requires
        h.wf(),
        h.ptr + n <= h.ops.len(),
    ensures
        h.redo_n(n).undo_n(n) == h,
{
    lemma_redo_n(h, n);
    lemma_undo_n(h.redo_n(n), n);
}

/// Logging an edit that made `lines` out of the current content keeps a
/// history well formed and makes `lines` current. One step back then
/// gives the content from before the edit, and nothing can be redone.
pub proof fn lemma_record(h: History, op: EditOp, lines: Lines)
    requires
        h.wf(),
        lines.len() >= 1,
        apply_spec(h.current(), op) == Some(lines),
    ensures
        h.record(op, lines).wf(),
        h.record(op, lines).current() == lines,
        h.record(op, lines).undo().current() == h.current(),
        h.record(op, lines).redo() == h.record(op, lines),
{
    let r = h.record(op, lines);
    assert forall|i: int| 0 <= i < r.ops.len() implies apply_spec(
        r.states[i],
        #[trigger] r.ops[i],
    ) == Some(r.states[i + 1]) by {
        if i < h.ptr {
            assert(r.ops[i] == h.ops[i]);
            assert(r.states[i] == h.states[i]);
            assert(r.states[i + 1] == h.states[i + 1]);
        }
    }
}

/// A step back takes back exactly what the undone edit did: the edit
/// makes the content after the step into the content before it. A step
/// forward gives what the redone edit makes of the current content.
pub proof fn lemma_steps_follow_the_log(h: History)
    requires
        h.wf(),
    ensures
        h.ptr > 0 ==> apply_spec(h.undo().current(), h.ops[h.ptr - 1]) == Some(h.current()),
        h.ptr < h.ops.len() ==> apply_spec(h.current(), h.ops[h.ptr]) == Some(h.redo().current()),
{
}

/// No sequence of undo and redo steps empties the document: the current
/// content of a well-formed history always has a line.
pub proof fn lemma_history_never_empty(h: History)
    requires
        h.wf(),
    ensures
        h.current().len() >= 1,
        h.undo().wf(),
        h.redo().wf(),
        h.undo().current().len() >= 1,
        h.redo().current().len() >= 1,
{
}

} // verus!
