//! Screen rectangles and the geometry of focus movement.

use crate::utils::spec_overlap;
use vstd::prelude::*;

verus! {

/// A rectangle of screen cells: the cell `(x, y)` is its upper left corner.
#[derive(Debug, Clone, Copy, PartialEq, Eq, Structural)]
pub struct Rect {
    pub x: u16,
    pub y: u16,
    pub width: u16,
    pub height: u16,
}

/// A direction on the screen.
#[derive(Debug, Copy, Clone, PartialEq, Eq, Structural)]
pub enum MoveDir {
    Left,
    Right,
    Up,
    Down,
}

impl Rect {
    /// The column just right of the rectangle.
    pub open spec fn spec_right(self) -> int {
        self.x + self.width
    }

    /// The row just below the rectangle.
    pub open spec fn spec_bottom(self) -> int {
        self.y + self.height
    }

    /// A rectangle from its corner and size.
    pub fn new(x: u16, y: u16, width: u16, height: u16) -> (r: Self)
        ensures
            r == (Rect { x, y, width, height }),
    {
        Rect { x, y, width, height }
    }

    /// The column just right of the rectangle.
    pub fn right(&self) -> (r: u32)
        ensures
            r == self.spec_right(),
    {
        self.x as u32 + self.width as u32
    }

    /// The row just below the rectangle.
    pub fn bottom(&self) -> (r: u32)
        ensures
            r == self.spec_bottom(),
    {
        self.y as u32 + self.height as u32
    }
}

/// Whether `other` lies beyond `cur` in direction `dir`: its near edge is
/// at or past the far edge of `cur`, and the two share rows (for left and
/// right) or columns (for up and down).
pub open spec fn lies_beyond(dir: MoveDir, cur: Rect, other: Rect) -> bool {
    match dir {
        MoveDir::Right => other.x >= cur.spec_right() && spec_overlap(
            other.y as int,
            other.spec_bottom(),
            cur.y as int,
            cur.spec_bottom(),
        ),
        MoveDir::Left => other.spec_right() <= cur.x && spec_overlap(
            other.y as int,
            other.spec_bottom(),
            cur.y as int,
            cur.spec_bottom(),
        ),
        MoveDir::Down => other.y >= cur.spec_bottom() && spec_overlap(
            other.x as int,
            other.spec_right(),
            cur.x as int,
            cur.spec_right(),
        ),
        MoveDir::Up => other.spec_bottom() <= cur.y && spec_overlap(
            other.x as int,
            other.spec_right(),
            cur.x as int,
            cur.spec_right(),
        ),
    }
}

/// The number of cells between the facing edges of `cur` and `other`.
pub open spec fn gap(dir: MoveDir, cur: Rect, other: Rect) -> int {
    match dir {
        MoveDir::Right => other.x - cur.spec_right(),
        MoveDir::Left => cur.x - other.spec_right(),
        MoveDir::Down => other.y - cur.spec_bottom(),
        MoveDir::Up => cur.y - other.spec_bottom(),
    }
}

/// Whether the half-open intervals `a_start..a_end` and `b_start..b_end`
/// share a point.
pub fn spans_overlap(a_start: u32, a_end: u32, b_start: u32, b_end: u32) -> (r: bool)
    ensures
        r == spec_overlap(a_start as int, a_end as int, b_start as int, b_end as int),
{
    a_start < b_end && b_start < a_end
}

/// Tests [`lies_beyond`].
pub fn is_beyond(dir: MoveDir, cur: &Rect, other: &Rect) -> (r: bool)
    ensures
        r == lies_beyond(dir, *cur, *other),
{
    match dir {
        MoveDir::Right => other.x as u32 >= cur.right() && spans_overlap(
            other.y as u32,
            other.bottom(),
            cur.y as u32,
            cur.bottom(),
        ),
        MoveDir::Left => other.right() <= cur.x as u32 && spans_overlap(
            other.y as u32,
            other.bottom(),
            cur.y as u32,
            cur.bottom(),
        ),
        MoveDir::Down => other.y as u32 >= cur.bottom() && spans_overlap(
            other.x as u32,
            other.right(),
            cur.x as u32,
            cur.right(),
        ),
        MoveDir::Up => other.bottom() <= cur.y as u32 && spans_overlap(
            other.x as u32,
            other.right(),
            cur.x as u32,
            cur.right(),
        ),
    }
}

/// Computes [`gap`] for a rectangle that lies beyond `cur`.
pub fn gap_between(dir: MoveDir, cur: &Rect, other: &Rect) -> (r: u32)
    requires
        lies_beyond(dir, *cur, *other),
    ensures
        r == gap(dir, *cur, *other),
{
    match dir {
        MoveDir::Right => other.x as u32 - cur.right(),
        MoveDir::Left => cur.x as u32 - other.right(),
        MoveDir::Down => other.y as u32 - cur.bottom(),
        MoveDir::Up => cur.y as u32 - other.bottom(),
    }
}

/// Whether a pane `a` at distance `da` is to be preferred to a pane `b` at
/// distance `db`, or is the same choice: the nearer one wins, and of two
/// equally near ones the one with the smaller id.
pub open spec fn no_worse(a: usize, da: int, b: usize, db: int) -> bool {
    da < db || (da == db && a <= b)
}

} // verus!
