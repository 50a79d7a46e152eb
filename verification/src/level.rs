//! The rectangular play area and its one-cell wall.

use vstd::prelude::*;

verus! {

/// An axis-aligned rectangle of grid cells. Its outermost ring of cells is
/// wall; only the cells strictly within that ring are legal for the snake
/// and for food.
#[derive(Clone, Copy, Debug, PartialEq, Eq, Structural)]
pub struct LevelBounds {
    pub x: u32,
    pub y: u32,
    pub width: u32,
    pub height: u32,
}

impl LevelBounds {
    /// The cell `(x, y)` lies strictly inside the wall.
    pub open spec fn spec_is_inside(&self, x: int, y: int) -> bool {
        &&& self.x < x < self.x + self.width - 1
        &&& self.y < y < self.y + self.height - 1
    }

    /// The cell `(x, y)` is part of the wall.
    pub open spec fn spec_is_wall(&self, x: int, y: int) -> bool {
        &&& self.x <= x < self.x + self.width
        &&& self.y <= y < self.y + self.height
        &&& !self.spec_is_inside(x, y)
    }

    /// The far edges of the rectangle are representable coordinates.
    pub open spec fn fits(&self) -> bool {
        &&& self.x + self.width <= u32::MAX
        &&& self.y + self.height <= u32::MAX
    }

    /// At least one cell lies strictly inside the wall.
    pub open spec fn has_interior(&self) -> bool {
        self.width >= 3 && self.height >= 3
    }

    /// The rectangle with its corner at `(x, y)`.
    pub fn new(x: u32, y: u32, width: u32, height: u32) -> (r: LevelBounds)
        ensures
            r == (LevelBounds { x, y, width, height }),
    {
        LevelBounds { x, y, width, height }
    }

    /// The ranges from which a cell inside the wall is drawn: for each axis
    /// the first coordinate inside the wall and the first one past the
    /// interior, the columns before the rows.
    pub fn interior_ranges(&self) -> (r: ((u32, u32), (u32, u32)))
        requires
            self.fits(),
            self.has_interior(),
        ensures
            r.0.0 == self.x + 1,
            r.0.1 == self.x + self.width - 1,
            r.1.0 == self.y + 1,
            r.1.1 == self.y + self.height - 1,
    {
        ((self.x + 1, self.x + self.width - 1), (self.y + 1, self.y + self.height - 1))
    }

    /// Strict interior test.
    pub fn is_inside(&self, x: u32, y: u32) -> (r: bool)
        ensures
            r == self.spec_is_inside(x as int, y as int),
    {
        let right: u64 = self.x as u64 + self.width as u64;
        let bottom: u64 = self.y as u64 + self.height as u64;
        x > self.x && (x as u64) + 1 < right && y > self.y && (y as u64) + 1 < bottom
    }
}

/// Wall cells and interior cells are disjoint, and together they make up
/// the rectangle.
pub proof fn lemma_wall_and_interior_partition(b: LevelBounds, x: int, y: int)
    ensures
        !(b.spec_is_wall(x, y) && b.spec_is_inside(x, y)),
        (b.spec_is_wall(x, y) || b.spec_is_inside(x, y)) <==> (b.x <= x < b.x + b.width && b.y <= y
            < b.y + b.height),
{
}

/// The cells inside the wall are exactly those whose column and row lie in
/// the ranges that cells are drawn from, the upper ends left out.
pub proof fn lemma_interior_is_the_ranges(b: LevelBounds, x: int, y: int)
    ensures
        b.spec_is_inside(x, y) <==> (b.x + 1 <= x < b.x + b.width - 1 && b.y + 1 <= y < b.y
            + b.height - 1),
        b.has_interior() <==> b.spec_is_inside(b.x + 1, b.y + 1),
{
}

} // verus!
