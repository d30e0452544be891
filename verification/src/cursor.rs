//! Cursor arithmetic on a document. A cursor is a pair `(char_x, line_y)`:
//! a grapheme-cluster index in a line, and a line index.

use crate::grapheme::cluster_count;
use crate::document::Lines;
use crate::utils::get_line_len;
use vstd::prelude::*;

verus! {

/// Whether `c` names a line of `lines` and a cluster boundary in it.
pub open spec fn cursor_valid(lines: Lines, c: (int, int)) -> bool {
    &&& 0 <= c.1 < lines.len()
    &&& 0 <= c.0 <= cluster_count(lines[c.1])
}

/// `c` pulled back into the document: onto the last line if it is below,
/// and onto the end of its line if it is past it.
pub open spec fn clamp_cursor(lines: Lines, c: (int, int)) -> (int, int) {
    let y = if c.1 >= lines.len() {
        lines.len() - 1
    } else {
        c.1
    };
    let n = cluster_count(lines[y]) as int;
    let x = if c.0 > n {
        n
    } else {
        c.0
    };
    (x, y)
}

/// `c` with its line pulled back into the document: onto the last line if
/// it is below. The column is left as it is.
pub open spec fn clamp_line(lines: Lines, c: (int, int)) -> (int, int) {
    if c.1 >= lines.len() {
        (c.0, lines.len() - 1)
    } else {
        c
    }
}

/// One cluster to the right. At the end of a line, or past it, the
/// cursor goes to the start of the next line if `wrap` is set and there is
/// one, and stays otherwise.
pub open spec fn cursor_right(lines: Lines, c: (int, int), wrap: bool) -> (int, int) {
    if c.0 < cluster_count(lines[c.1]) {
        (c.0 + 1, c.1)
    } else if wrap && c.1 + 1 < lines.len() {
        (0, c.1 + 1)
    } else {
        c
    }
}

/// One cluster to the left. At the start of a line the cursor goes to the
/// end of the line before if `wrap` is set and there is one, and stays
/// otherwise.
pub open spec fn cursor_left(lines: Lines, c: (int, int), wrap: bool) -> (int, int) {
    if c.0 > 0 {
        (c.0 - 1, c.1)
    } else if wrap && c.1 > 0 {
        (cluster_count(lines[c.1 - 1]) as int, c.1 - 1)
    } else {
        c
    }
}

/// `x` limited to the length of line `y`.
pub open spec fn column_on_line(lines: Lines, x: int, y: int) -> int {
    let n = cluster_count(lines[y]) as int;
    if x > n {
        n
    } else {
        x
    }
}

/// One line up, keeping the column as far as the line above reaches. Stays
/// on the first line.
pub open spec fn cursor_up(lines: Lines, c: (int, int)) -> (int, int) {
    if c.1 > 0 {
        (column_on_line(lines, c.0, c.1 - 1), c.1 - 1)
    } else {
        c
    }
}

/// One line down, keeping the column as far as the line below reaches.
/// Stays on the last line.
pub open spec fn cursor_down(lines: Lines, c: (int, int)) -> (int, int) {
    if c.1 + 1 < lines.len() {
        (column_on_line(lines, c.0, c.1 + 1), c.1 + 1)
    } else {
        c
    }
}

/// The pair of integers that a cursor stands for.
pub open spec fn pos_int(c: (usize, usize)) -> (int, int) {
    (c.0 as int, c.1 as int)
}

/// Clamping gives a valid cursor, pulling the line back gives a cursor on
/// a line of the document, and the moves keep the cursor on a line of the
/// document. A move that changes the line puts the cursor on a cluster
/// boundary of the new line; every move keeps a valid cursor valid.
pub proof fn lemma_moves_keep_valid(lines: Lines, c: (int, int), wrap: bool)
    requires
        lines.len() >= 1,
        0 <= c.0,
        0 <= c.1,
    ensures
        cursor_valid(lines, clamp_cursor(lines, c)),
        cursor_valid(lines, c) ==> clamp_cursor(lines, c) == c,
        0 <= clamp_line(lines, c).1 < lines.len(),
        c.1 < lines.len() ==> clamp_line(lines, c) == c,
        c.1 < lines.len() ==> 0 <= cursor_right(lines, c, wrap).1 < lines.len(),
        c.1 < lines.len() ==> 0 <= cursor_left(lines, c, wrap).1 < lines.len(),
        c.1 < lines.len() ==> 0 <= cursor_up(lines, c).1 < lines.len(),
        c.1 < lines.len() ==> 0 <= cursor_down(lines, c).1 < lines.len(),
        c.1 < lines.len() && cursor_up(lines, c).1 != c.1 ==> cursor_valid(
            lines,
            cursor_up(lines, c),
        ),
        c.1 < lines.len() && cursor_down(lines, c).1 != c.1 ==> cursor_valid(
            lines,
            cursor_down(lines, c),
        ),
        cursor_valid(lines, c) ==> cursor_valid(lines, cursor_right(lines, c, wrap)),
        cursor_valid(lines, c) ==> cursor_valid(lines, cursor_left(lines, c, wrap)),
        cursor_valid(lines, c) ==> cursor_valid(lines, cursor_up(lines, c)),
        cursor_valid(lines, c) ==> cursor_valid(lines, cursor_down(lines, c)),
{
}

/// Pulls `pos` back into `lines`; see [`clamp_cursor`].
pub fn clamp_pos(lines: &Vec<String>, pos: (usize, usize)) -> (r: (usize, usize))
    requires
        lines.len() >= 1,
    ensures
        pos_int(r) == clamp_cursor(lines.deep_view(), pos_int(pos)),
        cursor_valid(lines.deep_view(), pos_int(r)),
{
    let y: usize = if pos.1 >= lines.len() {
        lines.len() - 1
    } else {
        pos.1
    };
    let n: usize = get_line_len(&lines[y]);
    let x: usize = if pos.0 > n {
        n
    } else {
        pos.0
    };
    (x, y)
}

/// Pulls the line of `pos` back into `lines`; see [`clamp_line`].
pub fn clamp_line_pos(lines: &Vec<String>, pos: (usize, usize)) -> (r: (usize, usize))
    requires
        lines.len() >= 1,
    ensures
        pos_int(r) == clamp_line(lines.deep_view(), pos_int(pos)),
        r.1 < lines.len(),
{
    if pos.1 >= lines.len() {
        (pos.0, lines.len() - 1)
    } else {
        pos
    }
}

/// Moves `pos` one cluster to the right, after pulling its line back into
/// `lines`; see [`cursor_right`].
pub fn move_right(lines: &Vec<String>, pos: (usize, usize), wrap: bool) -> (r: (usize, usize))
    requires
        lines.len() >= 1,
    ensures
        pos_int(r) == cursor_right(
            lines.deep_view(),
            clamp_line(lines.deep_view(), pos_int(pos)),
            wrap,
        ),
        r.1 < lines.len(),
{
    let (x, y): (usize, usize) = clamp_line_pos(lines, pos);
    let n: usize = get_line_len(&lines[y]);
    if x < n {
        (x + 1, y)
    } else if wrap && y + 1 < lines.len() {
        (0, y + 1)
    } else {
        (x, y)
    }
}

/// Moves `pos` one cluster to the left, after pulling its line back into
/// `lines`; see [`cursor_left`].
pub fn move_left(lines: &Vec<String>, pos: (usize, usize), wrap: bool) -> (r: (usize, usize))
    requires
        lines.len() >= 1,
    ensures
        pos_int(r) == cursor_left(
            lines.deep_view(),
            clamp_line(lines.deep_view(), pos_int(pos)),
            wrap,
        ),
        r.1 < lines.len(),
{
    let (x, y): (usize, usize) = clamp_line_pos(lines, pos);
    if x > 0 {
        (x - 1, y)
    } else if wrap && y > 0 {
        (get_line_len(&lines[y - 1]), y - 1)
    } else {
        (x, y)
    }
}

/// Moves `pos` one line up, after pulling its line back into `lines`; see
/// [`cursor_up`]. The new column is the old one, or the length of the
/// line above if that is less; on the first line nothing changes.
pub fn move_up(lines: &Vec<String>, pos: (usize, usize)) -> (r: (usize, usize))
    requires
        lines.len() >= 1,
    ensures
        pos_int(r) == cursor_up(lines.deep_view(), clamp_line(lines.deep_view(), pos_int(pos))),
        r.1 < lines.len(),
{
    let (x, y): (usize, usize) = clamp_line_pos(lines, pos);
    if y > 0 {
        let n: usize = get_line_len(&lines[y - 1]);
        let nx: usize = if x > n {
            n
        } else {
            x
        };
        (nx, y - 1)
    } else {
        (x, y)
    }
}

/// Moves `pos` one line down, after pulling its line back into `lines`;
/// see [`cursor_down`]. The new column is the old one, or the length of
/// the line below if that is less; on the last line nothing changes.
pub fn move_down(lines: &Vec<String>, pos: (usize, usize)) -> (r: (usize, usize))
    requires
        lines.len() >= 1,
    ensures
        pos_int(r) == cursor_down(
            lines.deep_view(),
            clamp_line(lines.deep_view(), pos_int(pos)),
        ),
        r.1 < lines.len(),
{
    let (x, y): (usize, usize) = clamp_line_pos(lines, pos);
    if y + 1 < lines.len() {
        let n: usize = get_line_len(&lines[y + 1]);
        let nx: usize = if x > n {
            n
        } else {
            x
        };
        (nx, y + 1)
    } else {
        (x, y)
    }
}

} // verus!
