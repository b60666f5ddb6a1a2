use vstd::prelude::*;

verus! {

/// A grid cell, addressed by its x- and y-coordinate.
#[derive(Clone, Copy, Debug, PartialEq, Eq, Hash, Structural)]
pub struct Block {
    pub x: i32,
    pub y: i32,
}

/// Whether the cell lies on or beyond the outer ring of the board
/// `[x_low, x_high) × [y_low, y_high)`; that ring is reserved for the walls.
pub open spec fn outside(b: Block, x_bounds: [i32; 2], y_bounds: [i32; 2]) -> bool {
    b.x <= x_bounds[0] || b.x >= x_bounds[1] - 1 || b.y <= y_bounds[0] || b.y >= y_bounds[1] - 1
}

impl Block {
    pub fn new(x: i32, y: i32) -> (r: Block)
        ensures
            r.x == x,
            r.y == y,
    {
        Block { x, y }
    }

    /// Whether this cell touches or crosses the border of the given bounds.
    pub fn out_of_bounds(&self, x_bounds: [i32; 2], y_bounds: [i32; 2]) -> (r: bool)
        ensures
            r == outside(*self, x_bounds, y_bounds),
    {
        let x_low = x_bounds[0];
        let x_high = x_bounds[1];
        let y_low = y_bounds[0];
        let y_high = y_bounds[1];
        self.x <= x_low || self.x as i64 >= x_high as i64 - 1 || self.y <= y_low || self.y as i64
            >= y_high as i64 - 1
    }
}

} // verus!
