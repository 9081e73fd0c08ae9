//! Positions, sizes and rectangles in character-cell coordinates.

use vstd::prelude::*;

verus! {

/// A cell position: column `x`, line `y`.
#[derive(Clone, Copy, Debug, PartialEq, Eq, Structural)]
pub struct Position {
    pub x: i32,
    pub y: i32,
}

/// An extent in cells or pixels.
#[derive(Clone, Copy, Debug, PartialEq, Eq, Structural)]
pub struct Size {
    pub width: i32,
    pub height: i32,
}

/// An axis-aligned rectangle given by its upper left corner and its extent.
#[derive(Clone, Copy, Debug, PartialEq, Eq, Structural)]
pub struct Rectangle {
    pub start: Position,
    pub size: Size,
}

impl Position {
    pub fn new(x: i32, y: i32) -> (pos: Self)
        ensures
            pos.x == x,
            pos.y == y,
    {
        Self { x, y }
    }

    /// Reading order: by line first, then by column.
    pub open spec fn precedes(self, other: Position) -> bool {
        self.y < other.y || (self.y == other.y && self.x <= other.x)
    }

    /// Whether `self` comes no later than `other` in reading order.
    pub fn is_before(self, other: Position) -> (before: bool)
        ensures
            before == self.precedes(other),
    {
        self.y < other.y || (self.y == other.y && self.x <= other.x)
    }
}

impl Rectangle {
    /// The right edge, one past the last column.
    pub open spec fn right(self) -> int {
        self.start.x + self.size.width
    }

    /// The bottom edge, one past the last line.
    pub open spec fn bottom(self) -> int {
        self.start.y + self.size.height
    }

    /// `other` lies within `self`, edges included.
    pub open spec fn covers(self, other: Rectangle) -> bool {
        &&& self.start.x <= other.start.x
        &&& self.start.y <= other.start.y
        &&& other.right() <= self.right()
        &&& other.bottom() <= self.bottom()
    }

    pub fn contains(&self, other: Rectangle) -> (inside: bool)
        ensures
            inside == self.covers(other),
    {
        let right: i64 = self.start.x as i64 + self.size.width as i64;
        let bottom: i64 = self.start.y as i64 + self.size.height as i64;
        let other_right: i64 = other.start.x as i64 + other.size.width as i64;
        let other_bottom: i64 = other.start.y as i64 + other.size.height as i64;
        self.start.x <= other.start.x && self.start.y <= other.start.y && other_right <= right
            && other_bottom <= bottom
    }
}

} // verus!
