//! What edits make of a document, as mathematics over its lines.

use crate::cursor::pos_int;
use crate::grapheme::{cluster_count, head_text, insert_text, remove_span, span_text, tail_text};
use crate::lines::{join_lines, split_lines};
use crate::op::EditOp;
use vstd::prelude::*;

verus! {

/// The lines of a document.
pub type Lines = Seq<Seq<char>>;

/// `lines` with `text` put into line `pos.1` before cluster `pos.0`.
pub open spec fn doc_insert(lines: Lines, pos: (int, int), text: Seq<char>) -> Lines {
    lines.update(pos.1, insert_text(lines[pos.1], pos.0, text))
}

/// `lines` without the `n` clusters of line `pos.1` that start at cluster
/// `pos.0`.
pub open spec fn doc_delete(lines: Lines, pos: (int, int), n: int) -> Lines {
    lines.update(pos.1, remove_span(lines[pos.1], pos.0, n))
}

/// `lines` with line `pos.1` cut before cluster `pos.0`; what follows the
/// cut becomes the next line.
pub open spec fn doc_split(lines: Lines, pos: (int, int)) -> Lines {
    lines.update(pos.1, head_text(lines[pos.1], pos.0)).insert(
        pos.1 + 1,
        tail_text(lines[pos.1], pos.0),
    )
}

/// `lines` with line `y` appended to line `y - 1` and taken out.
pub open spec fn doc_join(lines: Lines, y: int) -> Lines {
    lines.update(y - 1, lines[y - 1] + lines[y]).remove(y)
}

/// `lines` without line `y`. The only line of a document is emptied
/// instead of removed, so that a line always remains.
pub open spec fn doc_delete_line(lines: Lines, y: int) -> Lines {
    if lines.len() == 1 {
        seq![Seq::empty()]
    } else {
        lines.remove(y)
    }
}

/// `lines` with `text` put in at `pos`: the text's first piece joins the
/// line's text before cluster `pos.0`, its last piece joins the line's text
/// from that cluster on, and every line feed in it starts a new line.
pub open spec fn doc_insert_block(lines: Lines, pos: (int, int), text: Seq<char>) -> Lines {
    let pieces = split_lines(text);
    let head = head_text(lines[pos.1], pos.0);
    let tail = tail_text(lines[pos.1], pos.0);
    let mid = if pieces.len() == 1 {
        seq![head + pieces[0] + tail]
    } else {
        seq![head + pieces[0]] + pieces.subrange(1, pieces.len() - 1) + seq![pieces.last() + tail]
    };
    lines.take(pos.1) + mid + lines.skip(pos.1 + 1)
}

/// Whether `start` and `end` are positions of `lines`, on cluster
/// boundaries, with `start` not behind `end`.
pub open spec fn block_valid(lines: Lines, start: (int, int), end: (int, int)) -> bool {
    &&& 0 <= start.1 <= end.1 < lines.len()
    &&& 0 <= start.0 <= cluster_count(lines[start.1])
    &&& 0 <= end.0 <= cluster_count(lines[end.1])
    &&& (start.1 < end.1 || start.0 <= end.0)
}

/// `lines` without the text between `start` and `end`: what stands before
/// `start` on its line is joined to what stands from `end` on on its line.
pub open spec fn doc_delete_block(lines: Lines, start: (int, int), end: (int, int)) -> Lines {
    lines.take(start.1).push(
        head_text(lines[start.1], start.0) + tail_text(lines[end.1], end.0),
    ) + lines.skip(end.1 + 1)
}

/// The text between `start` and `end`, with a line feed for every line
/// break in it.
pub open spec fn block_text(lines: Lines, start: (int, int), end: (int, int)) -> Seq<char> {
    if start.1 == end.1 {
        span_text(lines[start.1], start.0, end.0)
    } else {
        join_lines(
            seq![tail_text(lines[start.1], start.0)] + lines.subrange(start.1 + 1, end.1)
                + seq![head_text(lines[end.1], end.0)],
        )
    }
}

/// Where a block `text` that is inserted at `pos` ends: behind its last
/// piece, on the line that the piece lands on.
pub open spec fn block_end(lines: Lines, pos: (int, int), text: Seq<char>) -> (int, int) {
    let pieces = split_lines(text);
    if pieces.len() == 1 {
        (
            crate::grapheme::clamp_index(pos.0, cluster_count(lines[pos.1]) as int)
                + cluster_count(pieces[0]),
            pos.1,
        )
    } else {
        (cluster_count(pieces.last()) as int, pos.1 + pieces.len() - 1)
    }
}

/// `i` as a `usize`, or the greatest `usize` if `i` is greater.
pub open spec fn saturate(i: int) -> usize {
    if i > usize::MAX {
        usize::MAX
    } else {
        i as usize
    }
}

/// Breaking a line is inserting a block that is one line feed.
pub proof fn lemma_split_is_block(lines: Lines, pos: (int, int))
    requires
        0 <= pos.1 < lines.len(),
    ensures
        doc_insert_block(lines, pos, seq!['\n']) == doc_split(lines, pos),
{
    let text = seq!['\n'];
    let e = Seq::<char>::empty();
    assert(text.drop_last() =~= e);
    assert(split_lines(e) == seq![e]);
    assert(split_lines(text) =~= seq![e, e]);
    let pieces = split_lines(text);
    let head = head_text(lines[pos.1], pos.0);
    let tail = tail_text(lines[pos.1], pos.0);
    assert(head + pieces[0] =~= head);
    assert(pieces.last() + tail =~= tail);
    assert(pieces.subrange(1, pieces.len() - 1) =~= Seq::<Seq<char>>::empty());
    assert(doc_insert_block(lines, pos, text) =~= doc_split(lines, pos));
}

/// Joining a line to the one before is removing the block between the end
/// of the one and the start of the other, provided the clusters of each
/// line join to the line.
pub proof fn lemma_join_is_block(lines: Lines, y: int)
    requires
        0 < y < lines.len(),
        crate::grapheme::grapheme_clusters(lines[y - 1]).flatten() == lines[y - 1],
        crate::grapheme::grapheme_clusters(lines[y]).flatten() == lines[y],
    ensures
        block_valid(lines, (cluster_count(lines[y - 1]) as int, y - 1), (0, y)),
        doc_delete_block(lines, (cluster_count(lines[y - 1]) as int, y - 1), (0, y)) == doc_join(
            lines,
            y,
        ),
        block_text(lines, (cluster_count(lines[y - 1]) as int, y - 1), (0, y)) == seq!['\n'],
{
    let prev = lines[y - 1];
    let cur = lines[y];
    let n = cluster_count(prev) as int;
    crate::grapheme::lemma_head_tail(prev, n);
    crate::grapheme::lemma_head_tail(cur, 0);
    let cp = crate::grapheme::grapheme_clusters(prev);
    let cc = crate::grapheme::grapheme_clusters(cur);
    assert(cp.subrange(n, n) =~= Seq::<Seq<char>>::empty());
    assert(cc.subrange(0, 0) =~= Seq::<Seq<char>>::empty());
    assert(tail_text(prev, n) =~= Seq::<char>::empty());
    assert(head_text(cur, 0) =~= Seq::<char>::empty());
    assert(head_text(prev, n) =~= prev);
    assert(tail_text(cur, 0) =~= cur);
    assert(doc_delete_block(lines, (n, y - 1), (0, y)) =~= doc_join(lines, y));
    let e = Seq::<char>::empty();
    let parts = seq![tail_text(prev, n)] + lines.subrange(y, y) + seq![head_text(cur, 0)];
    assert(parts =~= seq![e, e]);
    assert(parts.drop_last() =~= seq![e]);
    assert(join_lines(seq![e]) == e);
    assert(join_lines(parts) == join_lines(parts.drop_last()) + seq!['\n'] + parts.last());
    assert(join_lines(parts) =~= seq!['\n']);
}

/// What `op` makes of `lines`, or `None` where `op` does not fit them.
///
/// An insertion needs its line to exist, a removal its whole range; a line
/// can be inserted up to one past the last line. The text that a removal
/// carries and the length that an insertion carries are records for the
/// inverse and are not consulted.
pub open spec fn apply_spec(lines: Lines, op: EditOp) -> Option<Lines> {
    match op {
        EditOp::Insert { pos, text, .. } => if pos.1 < lines.len() {
            Some(doc_insert(lines, pos_int(pos), text@))
        } else {
            None
        },
        EditOp::Delete { pos, len, .. } => if pos.1 < lines.len() && pos.0 + len <= cluster_count(
            lines[pos.1 as int],
        ) {
            Some(doc_delete(lines, pos_int(pos), len as int))
        } else {
            None
        },
        EditOp::InsertLine { y, text } => if y <= lines.len() {
            Some(lines.insert(y as int, text@))
        } else {
            None
        },
        EditOp::DeleteLine { y, .. } => if y < lines.len() {
            Some(doc_delete_line(lines, y as int))
        } else {
            None
        },
        EditOp::InsertBlock { start_pos, text, .. } => if start_pos.1 < lines.len() {
            Some(doc_insert_block(lines, pos_int(start_pos), text@))
        } else {
            None
        },
        EditOp::DeleteBlock { start_pos, end_pos, .. } => if block_valid(
            lines,
            pos_int(start_pos),
            pos_int(end_pos),
        ) {
            Some(doc_delete_block(lines, pos_int(start_pos), pos_int(end_pos)))
        } else {
            None
        },
    }
}

/// Removing the text that was just inserted gives the lines back,
/// provided the insertion left the cluster boundaries around it where they
/// were: the text before the inserted clusters and the text after them are
/// what stood before and after the place of insertion.
pub proof fn lemma_insert_inverse(lines: Lines, pos: (usize, usize), text: String, len: usize)
    requires
        pos.1 < lines.len(),
        head_text(lines[pos.1 as int], pos.0 as int) + tail_text(lines[pos.1 as int], pos.0 as int)
            == lines[pos.1 as int],
        ({
            let line = lines[pos.1 as int];
            let now = insert_text(line, pos.0 as int, text@);
            &&& pos.0 + len <= cluster_count(now)
            &&& head_text(now, pos.0 as int) == head_text(line, pos.0 as int)
            &&& tail_text(now, pos.0 + len) == tail_text(line, pos.0 as int)
        }),
    ensures
        apply_spec(lines, EditOp::Insert { pos, text, len }) matches Some(mid) && apply_spec(
            mid,
            (EditOp::Insert { pos, text, len }).spec_inverse(),
        ) == Some(lines),
{
    let mid = doc_insert(lines, pos_int(pos), text@);
    assert(doc_delete(mid, pos_int(pos), len as int) =~= lines);
}

/// Removing the line that was just inserted gives the lines back.
pub proof fn lemma_insert_line_inverse(lines: Lines, y: usize, text: String)
    requires
        lines.len() >= 1,
        y <= lines.len(),
    ensures
        apply_spec(lines, EditOp::InsertLine { y, text }) matches Some(mid) && apply_spec(
            mid,
            (EditOp::InsertLine { y, text }).spec_inverse(),
        ) == Some(lines),
{
    let mid = lines.insert(y as int, text@);
    assert(mid.remove(y as int) =~= lines);
}

/// Inserting the line that was just removed gives the lines back, unless
/// the line was the only one.
pub proof fn lemma_delete_line_inverse(lines: Lines, y: usize, text: String)
    requires
        lines.len() >= 2,
        y < lines.len(),
        text@ == lines[y as int],
    ensures
        apply_spec(lines, EditOp::DeleteLine { y, text }) matches Some(mid) && apply_spec(
            mid,
            (EditOp::DeleteLine { y, text }).spec_inverse(),
        ) == Some(lines),
{
    let mid = lines.remove(y as int);
    assert(mid.insert(y as int, text@) =~= lines);
}

} // verus!
