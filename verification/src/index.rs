//! Coordinates of the terminal grid.

use vstd::prelude::*;

verus! {

/// A line of the grid, counted from the top of the visible region.
///
/// Negative lines lie in the scrollback history.
#[derive(Clone, Copy, Debug, PartialEq, Eq, PartialOrd, Ord, Hash, Structural)]
pub struct Line(pub i32);

/// A column of the grid, counted from the left.
#[derive(Clone, Copy, Debug, PartialEq, Eq, PartialOrd, Ord, Hash, Structural)]
pub struct Column(pub usize);

/// A cell position.
#[derive(Clone, Copy, Debug, PartialEq, Eq, PartialOrd, Ord, Hash, Structural)]
pub struct Point {
    pub line: Line,
    pub column: Column,
}

/// Direction of a search or of a cursor movement.
#[derive(Clone, Copy, Debug, PartialEq, Eq, Structural)]
pub enum Direction {
    Left,
    Right,
}

impl Direction {
    pub open spec fn spec_opposite(self) -> Direction {
        match self {
            Direction::Left => Direction::Right,
            Direction::Right => Direction::Left,
        }
    }

    /// The other direction.
    pub fn opposite(self) -> (r: Direction)
        ensures
            r == self.spec_opposite(),
    {
        match self {
            Direction::Left => Direction::Right,
            Direction::Right => Direction::Left,
        }
    }
}

impl Point {
    /// Reading order: by line, then by column.
    pub open spec fn spec_precedes(self, other: Point) -> bool {
        self.line.0 < other.line.0 || (self.line.0 == other.line.0 && self.column.0
            < other.column.0)
    }

    pub fn new(line: Line, column: Column) -> (p: Point)
        ensures
            p.line == line,
            p.column == column,
    {
        Point { line, column }
    }

    /// Whether `self` comes strictly before `other` in reading order.
    pub fn precedes(&self, other: &Point) -> (r: bool)
        ensures
            r == self.spec_precedes(*other),
    {
        self.line.0 < other.line.0 || (self.line.0 == other.line.0 && self.column.0
            < other.column.0)
    }
}

} // verus!
