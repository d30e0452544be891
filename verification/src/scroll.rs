//! Scroll-window arithmetic: where a viewport has to start so that the
//! cursor stays inside it with a margin.
//!
//! The margin `thres` is kept in full behind the cursor, on the side that
//! the text grows to: the cursor never comes nearer than `thres` cells to
//! the far edge of a viewport that is larger than the margin. Before the
//! cursor the same margin is kept where the viewport has room for both,
//! and is given up at the start of the document.

use vstd::prelude::*;

verus! {

/// The least offset that keeps the far margin: with it the cursor stands
/// `thres` cells before the last cell of the viewport, or the view stands
/// at the start of the document.
pub open spec fn least_offset(cursor: int, viewport: int, thres: int) -> int {
    let room = viewport - 1 - thres;
    if cursor > room {
        cursor - room
    } else {
        0
    }
}

/// The greatest offset that the view may have. Where the viewport has
/// room for both margins and the cursor, this keeps the near margin: the
/// cursor stands `thres` cells behind the first cell, or the view stands
/// at the start of the document. In a smaller viewport it only keeps the
/// cursor visible.
pub open spec fn greatest_offset(cursor: int, viewport: int, thres: int) -> int {
    if viewport - 1 - thres >= thres {
        if cursor > thres {
            cursor - thres
        } else {
            0
        }
    } else {
        cursor
    }
}

/// New offset on one axis.
///
/// A viewport that is not larger than the margin starts at the cursor.
/// Otherwise the view stays where it is while its offset lies between
/// [`least_offset`] and [`greatest_offset`], and moves to the nearer of
/// the two when it does not.
pub open spec fn scroll_axis(cursor: int, viewport: int, thres: int, offset: int) -> int {
    if viewport <= thres {
        cursor
    } else if offset < least_offset(cursor, viewport, thres) {
        least_offset(cursor, viewport, thres)
    } else if offset > greatest_offset(cursor, viewport, thres) {
        greatest_offset(cursor, viewport, thres)
    } else {
        offset
    }
}

/// Whether a view that starts at `offset` shows the cursor with the far
/// margin in full: the cursor is not before the view, and `thres` cells
/// of the viewport lie behind it.
pub open spec fn far_margin_kept(cursor: int, viewport: int, thres: int, offset: int) -> bool {
    0 <= offset <= cursor && cursor + thres < offset + viewport
}

/// Whether a view that starts at `offset` keeps the near margin: `thres`
/// cells of the viewport lie before the cursor, or the view stands at the
/// start of the document.
pub open spec fn near_margin_kept(cursor: int, thres: int, offset: int) -> bool {
    offset + thres <= cursor || offset == 0
}

/// Whether a view at `offset`, a pair `(column, row)`, shows the cursor
/// with the far margins in full, on each axis whose viewport is larger
/// than its margin.
pub open spec fn cursor_in_view(
    cursor: (int, int),
    viewport: (int, int),
    thres: (int, int),
    offset: (int, int),
) -> bool {
    &&& viewport.0 > thres.0 ==> far_margin_kept(cursor.0, viewport.0, thres.0, offset.0)
    &&& viewport.1 > thres.1 ==> far_margin_kept(cursor.1, viewport.1, thres.1, offset.1)
}

/// What the new offset achieves.
///
/// In a viewport larger than the margin the cursor is visible and the far
/// margin is kept in full. Where the viewport has room for both margins,
/// the near margin is kept too. An offset that achieves all this already
/// is left as it is. In a viewport that has no room for the near margin,
/// the view moves only if the cursor is not visible or the far margin is
/// not kept. A viewport not larger than the margin starts at the cursor.
pub proof fn lemma_scroll_axis(cursor: int, viewport: int, thres: int, offset: int)
    requires
        0 <= cursor,
        0 <= thres,
        0 <= offset,
    ensures
        0 <= scroll_axis(cursor, viewport, thres, offset) <= cursor,
        viewport > thres ==> far_margin_kept(
            cursor,
            viewport,
            thres,
            scroll_axis(cursor, viewport, thres, offset),
        ),
        viewport > 2 * thres ==> near_margin_kept(
            cursor,
            thres,
            scroll_axis(cursor, viewport, thres, offset),
        ),
        viewport > 2 * thres && far_margin_kept(cursor, viewport, thres, offset)
            && near_margin_kept(cursor, thres, offset) ==> scroll_axis(
            cursor,
            viewport,
            thres,
            offset,
        ) == offset,
        thres < viewport <= 2 * thres && far_margin_kept(cursor, viewport, thres, offset)
            ==> scroll_axis(cursor, viewport, thres, offset) == offset,
        viewport <= thres ==> scroll_axis(cursor, viewport, thres, offset) == cursor,
{
}

/// New scroll offset on one axis; see [`scroll_axis`].
pub fn compute_scroll_axis(cursor: usize, viewport: usize, thres: usize, offset: usize) -> (r:
    usize)
    ensures
        r == scroll_axis(cursor as int, viewport as int, thres as int, offset as int),
        r <= cursor,
        viewport > thres ==> far_margin_kept(
            cursor as int,
            viewport as int,
            thres as int,
            r as int,
        ),
        viewport > 2 * thres ==> near_margin_kept(cursor as int, thres as int, r as int),
{
    proof {
        lemma_scroll_axis(cursor as int, viewport as int, thres as int, offset as int);
    }
    if viewport <= thres {
        return cursor;
    }
    let room: usize = viewport - 1 - thres;
    let least: usize = if cursor > room {
        cursor - room
    } else {
        0
    };
    let greatest: usize = if room >= thres {
        if cursor > thres {
            cursor - thres
        } else {
            0
        }
    } else {
        cursor
    };
    if offset < least {
        least
    } else if offset > greatest {
        greatest
    } else {
        offset
    }
}

/// New scroll offset `(column, row)` for a cursor `(char_x, line_y)`, a
/// viewport `(width, height)`, margins `(columns, rows)` and the present
/// offset. Each axis is computed on its own by [`scroll_axis`].
pub fn compute_scroll(
    cursor: (usize, usize),
    viewport: (usize, usize),
    thres: (usize, usize),
    offset: (usize, usize),
) -> (r: (usize, usize))
    ensures
        r.0 == scroll_axis(cursor.0 as int, viewport.0 as int, thres.0 as int, offset.0 as int),
        r.1 == scroll_axis(cursor.1 as int, viewport.1 as int, thres.1 as int, offset.1 as int),
        r.0 <= cursor.0,
        r.1 <= cursor.1,
        cursor_in_view(
            (cursor.0 as int, cursor.1 as int),
            (viewport.0 as int, viewport.1 as int),
            (thres.0 as int, thres.1 as int),
            (r.0 as int, r.1 as int),
        ),
{
    (
        compute_scroll_axis(cursor.0, viewport.0, thres.0, offset.0),
        compute_scroll_axis(cursor.1, viewport.1, thres.1, offset.1),
    )
}

} // verus!
