use vstd::prelude::*;

verus! {

/// One of the four directions of travel on the grid.
#[derive(Clone, Copy, Debug, PartialEq, Eq, Hash, Structural)]
pub enum Direction {
    Up,
    Down,
    Left,
    Right,
}

pub open spec fn opposite_of(d: Direction) -> Direction {
    match d {
        Direction::Up => Direction::Down,
        Direction::Down => Direction::Up,
        Direction::Left => Direction::Right,
        Direction::Right => Direction::Left,
    }
}

/// Horizontal part of the unit step in direction `d`.
pub open spec fn dx(d: Direction) -> int {
    match d {
        Direction::Left => -1,
        Direction::Right => 1,
        _ => 0,
    }
}

/// Vertical part of the unit step in direction `d` (y grows downwards).
pub open spec fn dy(d: Direction) -> int {
    match d {
        Direction::Up => -1,
        Direction::Down => 1,
        _ => 0,
    }
}

/// The directions in the order in which `Direction::offsets` lists them.
pub open spec fn direction_at(k: int) -> Direction {
    if k == 0 {
        Direction::Up
    } else if k == 1 {
        Direction::Down
    } else if k == 2 {
        Direction::Left
    } else {
        Direction::Right
    }
}

/// Taking the opposite direction twice gives back the direction itself.
pub proof fn opposite_involution(d: Direction)
    ensures
        opposite_of(opposite_of(d)) == d,
{
}

impl Direction {
    /// The direction pointing the other way.
    pub fn opposite(&self) -> (r: Direction)
        ensures
            r == opposite_of(*self),
    {
        match *self {
            Direction::Up => Direction::Down,
            Direction::Down => Direction::Up,
            Direction::Left => Direction::Right,
            Direction::Right => Direction::Left,
        }
    }

    /// The four directions, each with its unit offset `[dx, dy]`.
    pub fn offsets() -> (r: [(Direction, [i32; 2]); 4])
        ensures
            forall|k: int|
                0 <= k < 4 ==> {
                    &&& (#[trigger] r[k]).0 == direction_at(k)
                    &&& r[k].1[0] == dx(direction_at(k))
                    &&& r[k].1[1] == dy(direction_at(k))
                },
    {
        [
            (Direction::Up, [0, -1]),
            (Direction::Down, [0, 1]),
            (Direction::Left, [-1, 0]),
            (Direction::Right, [1, 0]),
        ]
    }
}

} // verus!
