//! Rectangles of terminal cells.

use vstd::prelude::*;

verus! {

/// One cell of the screen.
#[derive(Debug, Clone, Copy, PartialEq, Eq, Structural)]
pub struct Position {
    pub x: u16,
    pub y: u16,
}

/// A block of cells. The right and bottom edges are the first cells outside
/// it, held to the last coordinate there is.
#[derive(Debug, Clone, Copy, PartialEq, Eq, Structural)]
pub struct Rect {
    pub x: u16,
    pub y: u16,
    pub width: u16,
    pub height: u16,
}

impl Rect {
    /// The empty block, which no pointer is ever in.
    #[verifier::allow_in_spec]
    pub fn zero() -> Rect
        returns
            (Rect { x: 0, y: 0, width: 0, height: 0 }),
    {
        Rect { x: 0, y: 0, width: 0, height: 0 }
    }

    #[verifier::allow_in_spec]
    pub fn right(self) -> u16
        returns
            self.x.saturating_add(self.width),
    {
        self.x.saturating_add(self.width)
    }

    #[verifier::allow_in_spec]
    pub fn bottom(self) -> u16
        returns
            self.y.saturating_add(self.height),
    {
        self.y.saturating_add(self.height)
    }

    #[verifier::allow_in_spec]
    pub fn is_empty(self) -> bool
        returns
            self.width == 0 || self.height == 0,
    {
        self.width == 0 || self.height == 0
    }

    #[verifier::allow_in_spec]
    pub fn contains(self, at: Position) -> bool
        returns
            self.x <= at.x && at.x < self.right() && self.y <= at.y && at.y < self.bottom(),
    {
        self.x <= at.x && at.x < self.right() && self.y <= at.y && at.y < self.bottom()
    }

    /// The cells in both blocks.
    #[verifier::allow_in_spec]
    pub fn intersection(self, other: Rect) -> Rect
        returns
            ({
                let x = max16(self.x, other.x);
                let y = max16(self.y, other.y);
                Rect {
                    x,
                    y,
                    width: min16(self.right(), other.right()).saturating_sub(x),
                    height: min16(self.bottom(), other.bottom()).saturating_sub(y),
                }
            }),
    {
        let x: u16 = max16(self.x, other.x);
        let y: u16 = max16(self.y, other.y);
        Rect {
            x,
            y,
            width: min16(self.right(), other.right()).saturating_sub(x),
            height: min16(self.bottom(), other.bottom()).saturating_sub(y),
        }
    }

    /// The same block, `width` cells wide.
    #[verifier::allow_in_spec]
    pub fn wide(self, width: u16) -> Rect
        returns
            (Rect { x: self.x, y: self.y, width, height: self.height }),
    {
        Rect { x: self.x, y: self.y, width, height: self.height }
    }

    /// The same columns, `height` rows from the top.
    #[verifier::allow_in_spec]
    pub fn tall(self, height: u16) -> Rect
        returns
            (Rect { x: self.x, y: self.y, width: self.width, height }),
    {
        Rect { x: self.x, y: self.y, width: self.width, height }
    }

    /// The same columns, `height` rows starting `down` rows below the top.
    #[verifier::allow_in_spec]
    pub fn band(self, down: u16, height: u16) -> Rect
        returns
            (Rect { x: self.x, y: self.y.saturating_add(down), width: self.width, height }),
    {
        Rect { x: self.x, y: self.y.saturating_add(down), width: self.width, height }
    }

    /// The same rows, `width` cells starting `over` cells from the left.
    #[verifier::allow_in_spec]
    pub fn strip(self, over: u16, width: u16) -> Rect
        returns
            (Rect { x: self.x.saturating_add(over), y: self.y, width, height: self.height }),
    {
        Rect { x: self.x.saturating_add(over), y: self.y, width, height: self.height }
    }
}

#[verifier::allow_in_spec]
pub fn min16(a: u16, b: u16) -> u16
    returns
        (if a <= b { a } else { b }),
{
    if a <= b { a } else { b }
}

#[verifier::allow_in_spec]
pub fn max16(a: u16, b: u16) -> u16
    returns
        (if a >= b { a } else { b }),
{
    if a >= b { a } else { b }
}

#[verifier::allow_in_spec]
pub fn min_usize(a: usize, b: usize) -> usize
    returns
        (if a <= b { a } else { b }),
{
    if a <= b { a } else { b }
}

#[verifier::allow_in_spec]
pub fn max_usize(a: usize, b: usize) -> usize
    returns
        (if a >= b { a } else { b }),
{
    if a >= b { a } else { b }
}

/// Whether a pointer is in a block.
#[verifier::allow_in_spec]
pub fn over(mouse: Option<Position>, area: Rect) -> bool
    returns
        (match mouse {
            Some(at) => area.contains(at),
            None => false,
        }),
{
    match mouse {
        Some(at) => area.contains(at),
        None => false,
    }
}

/// A cell is in the intersection of two blocks exactly when it is in both.
pub proof fn intersection_is_both(a: Rect, b: Rect, at: Position)
    ensures
        a.intersection(b).contains(at) == (a.contains(at) && b.contains(at)),
{
}

/// An empty block answers no pointer.
pub proof fn empty_is_never_hit(a: Rect, at: Position)
    requires
        a.is_empty(),
    ensures
        !a.contains(at),
{
}

/// A block holds the cells from its corner on, as many across and down as it is
/// wide and tall.
pub proof fn a_block_holds_its_cells(a: Rect, at: Position)
    requires
        a.x + a.width <= u16::MAX,
        a.y + a.height <= u16::MAX,
    ensures
        a.contains(at) <==> 0 <= at.x - a.x < a.width && 0 <= at.y - a.y < a.height,
        a.right() - a.x == a.width,
        a.bottom() - a.y == a.height,
{
}

/// A band of a block is some of its rows, and a strip some of its columns.
pub proof fn bands_and_strips_are_parts(a: Rect, down: u16, height: u16, over: u16, width: u16)
    requires
        down + height <= a.height,
        over + width <= a.width,
        a.x + a.width <= u16::MAX,
        a.y + a.height <= u16::MAX,
    ensures
        a.band(down, height).y - a.y == down && a.band(down, height).height == height,
        a.band(down, height).x == a.x && a.band(down, height).width == a.width,
        a.strip(over, width).x - a.x == over && a.strip(over, width).width == width,
        a.strip(over, width).y == a.y && a.strip(over, width).height == a.height,
        a.band(down, height).intersection(a) == a.band(down, height),
        a.strip(over, width).intersection(a) == a.strip(over, width),
        a.tall(height) == a.band(0, height),
        a.wide(width) == a.strip(0, width),
{
}

} // verus!
