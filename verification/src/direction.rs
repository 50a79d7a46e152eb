//! The four headings, encoded as integers modulo four.

use vstd::prelude::*;

verus! {

/// A heading on the grid. Counting clockwise from `Up`, the headings are
/// numbered 0 to 3.
#[derive(Clone, Copy, Debug, PartialEq, Eq, Structural)]
pub enum Direction {
    Up,
    Right,
    Down,
    Left,
}

impl Direction {
    /// The number of this heading, from 0 to 3.
    pub open spec fn ordinal(self) -> int {
        match self {
            Direction::Up => 0,
            Direction::Right => 1,
            Direction::Down => 2,
            Direction::Left => 3,
        }
    }

    /// The heading whose number is `i` modulo four.
    pub open spec fn of_int(i: int) -> Direction {
        let r = i % 4;
        if r == 0 {
            Direction::Up
        } else if r == 1 {
            Direction::Right
        } else if r == 2 {
            Direction::Down
        } else {
            Direction::Left
        }
    }

    /// One quarter turn clockwise.
    pub open spec fn spec_cw(self) -> Direction {
        Direction::of_int(self.ordinal() + 1)
    }

    /// One quarter turn counter-clockwise.
    pub open spec fn spec_ccw(self) -> Direction {
        Direction::of_int(self.ordinal() - 1)
    }

    /// Two headings are opposite when their numbers differ by two modulo four.
    pub open spec fn spec_is_opposite(self, other: Direction) -> bool {
        (self.ordinal() - other.ordinal()) % 4 == 2
    }

    /// Rotates by one quarter turn clockwise.
    pub fn cw(&self) -> (r: Direction)
        ensures
            r == self.spec_cw(),
    {
        let x: u32 = u32::from(*self);
        Direction::from((x + 1) % 4)
    }

    /// Rotates by one quarter turn counter-clockwise.
    pub fn ccw(&self) -> (r: Direction)
        ensures
            r == self.spec_ccw(),
    {
        let x: u32 = u32::from(*self);
        Direction::from((x + 3) % 4)
    }

    /// Tells whether `direction` points the other way.
    pub fn is_opposite(&self, direction: Direction) -> (r: bool)
        ensures
            r == self.spec_is_opposite(direction),
    {
        let d1: u32 = u32::from(*self);
        let d2: u32 = u32::from(direction);
        let delta: Direction = Direction::from((d1 + 4 - d2) % 4);
        delta == Direction::Down
    }
}

impl From<u32> for Direction {
    fn from(x: u32) -> (r: Direction) {
        let m: u32 = x % 4;
        if m == 0 {
            Direction::Up
        } else if m == 1 {
            Direction::Right
        } else if m == 2 {
            Direction::Down
        } else {
            Direction::Left
        }
    }
}

impl vstd::std_specs::convert::FromSpecImpl<u32> for Direction {
    open spec fn obeys_from_spec() -> bool {
        true
    }

    open spec fn from_spec(x: u32) -> Direction {
        Direction::of_int(x as int)
    }
}

impl From<Direction> for u32 {
    fn from(x: Direction) -> (r: u32) {
        match x {
            Direction::Up => 0,
            Direction::Right => 1,
            Direction::Down => 2,
            Direction::Left => 3,
        }
    }
}

impl vstd::std_specs::convert::FromSpecImpl<Direction> for u32 {
    open spec fn obeys_from_spec() -> bool {
        true
    }

    open spec fn from_spec(x: Direction) -> u32 {
        x.ordinal() as u32
    }
}

/// Turning clockwise and then counter-clockwise, or the other way round,
/// gives back the heading one started from.
pub proof fn lemma_cw_ccw_cancel(d: Direction)
    ensures
        d.spec_cw().spec_ccw() == d,
        d.spec_ccw().spec_cw() == d,
{
}

/// Two quarter turns clockwise give the opposite heading.
pub proof fn lemma_half_turn_is_opposite(d: Direction)
    ensures
        d.spec_is_opposite(d.spec_cw().spec_cw()),
        d.spec_cw().spec_cw().spec_is_opposite(d),
{
}

/// Being opposite is symmetric, no heading is opposite to itself, and each
/// heading has exactly one opposite: the one two quarter turns away.
pub proof fn lemma_opposite_is_symmetric(a: Direction, b: Direction)
    ensures
        a.spec_is_opposite(b) == b.spec_is_opposite(a),
        !a.spec_is_opposite(a),
        a.spec_is_opposite(b) <==> b == a.spec_cw().spec_cw(),
{
}

} // verus!
