use vstd::prelude::*;

verus! {

/// An integer position or offset on the voxel grid.
#[derive(Clone, Copy, Debug, PartialEq, Eq, Structural)]
pub struct Coords {
    pub x: i32,
    pub y: i32,
    pub z: i32,
}

impl Coords {
    pub fn new(x: i32, y: i32, z: i32) -> (r: Coords)
        ensures
            r@ == (x as int, y as int, z as int),
    {
        Coords { x, y, z }
    }
}

impl View for Coords {
    type V = (int, int, int);

    open spec fn view(&self) -> (int, int, int) {
        (self.x as int, self.y as int, self.z as int)
    }
}

/// One of the six axis-aligned faces of a cell.
#[derive(Clone, Copy, Debug, PartialEq, Eq, Structural)]
pub enum Direction {
    /// Positive X.
    Left,
    /// Negative X.
    Right,
    /// Positive Y.
    Up,
    /// Negative Y.
    Down,
    /// Positive Z.
    Back,
    /// Negative Z.
    Front,
}

/// The number of face directions.
pub const DIRECTION_COUNT: usize = 6;

/// The unit vector that a direction points along.
pub open spec fn unit_offset(d: Direction) -> (int, int, int) {
    match d {
        Direction::Left => (1, 0, 0),
        Direction::Right => (-1, 0, 0),
        Direction::Up => (0, 1, 0),
        Direction::Down => (0, -1, 0),
        Direction::Back => (0, 0, 1),
        Direction::Front => (0, 0, -1),
    }
}

/// The direction pointing the other way.
pub open spec fn opposite(d: Direction) -> Direction {
    match d {
        Direction::Left => Direction::Right,
        Direction::Right => Direction::Left,
        Direction::Up => Direction::Down,
        Direction::Down => Direction::Up,
        Direction::Back => Direction::Front,
        Direction::Front => Direction::Back,
    }
}

/// The fixed order in which the faces of a cell are visited.
pub open spec fn direction_at_spec(i: int) -> Direction {
    if i == 0 {
        Direction::Left
    } else if i == 1 {
        Direction::Right
    } else if i == 2 {
        Direction::Up
    } else if i == 3 {
        Direction::Down
    } else if i == 4 {
        Direction::Back
    } else {
        Direction::Front
    }
}

/// The position of a direction in the fixed visiting order.
pub open spec fn direction_index(d: Direction) -> int {
    match d {
        Direction::Left => 0,
        Direction::Right => 1,
        Direction::Up => 2,
        Direction::Down => 3,
        Direction::Back => 4,
        Direction::Front => 5,
    }
}

/// `p` moved one step along `d`.
pub open spec fn step(p: (int, int, int), d: Direction) -> (int, int, int) {
    (p.0 + unit_offset(d).0, p.1 + unit_offset(d).1, p.2 + unit_offset(d).2)
}

/// Every direction has a place in the visiting order, and the order holds each
/// direction once.
pub proof fn lemma_direction_order(d: Direction)
    ensures
        0 <= direction_index(d) < DIRECTION_COUNT,
        direction_at_spec(direction_index(d)) == d,
        forall|i: int| 0 <= i < DIRECTION_COUNT ==> direction_index(#[trigger] direction_at_spec(i)) == i,
{
}

/// The negation of a direction's unit vector is the unit vector of its
/// opposite, and stepping there and back returns to the start.
pub proof fn lemma_opposite(d: Direction, p: (int, int, int))
    ensures
        unit_offset(opposite(d)) == (-unit_offset(d).0, -unit_offset(d).1, -unit_offset(d).2),
        opposite(opposite(d)) == d,
        opposite(d) != d,
        step(step(p, d), opposite(d)) == p,
{
}

impl Direction {
    /// The unit vector of this direction.
    pub fn facing(&self) -> (r: Coords)
        ensures
            r@ == unit_offset(*self),
    {
        match self {
            Direction::Left => Coords { x: 1, y: 0, z: 0 },
            Direction::Right => Coords { x: -1, y: 0, z: 0 },
            Direction::Up => Coords { x: 0, y: 1, z: 0 },
            Direction::Down => Coords { x: 0, y: -1, z: 0 },
            Direction::Back => Coords { x: 0, y: 0, z: 1 },
            Direction::Front => Coords { x: 0, y: 0, z: -1 },
        }
    }

    /// The direction pointing the other way.
    pub fn opposite(&self) -> (r: Direction)
        ensures
            r == opposite(*self),
    {
        match self {
            Direction::Left => Direction::Right,
            Direction::Right => Direction::Left,
            Direction::Up => Direction::Down,
            Direction::Down => Direction::Up,
            Direction::Back => Direction::Front,
            Direction::Front => Direction::Back,
        }
    }

    /// The direction at position `i` of the fixed visiting order.
    pub fn at(i: usize) -> (r: Direction)
        requires
            i < DIRECTION_COUNT,
        ensures
            r == direction_at_spec(i as int),
    {
        if i == 0 {
            Direction::Left
        } else if i == 1 {
            Direction::Right
        } else if i == 2 {
            Direction::Up
        } else if i == 3 {
            Direction::Down
        } else if i == 4 {
            Direction::Back
        } else {
            Direction::Front
        }
    }
}

} // verus!
