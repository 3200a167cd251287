use vstd::prelude::*;
use super::direction::Direction;

verus! {

/// Clamps a mathematical integer into the range of `i16`.
pub open spec fn clamp_i16(v: int) -> int {
    if v < i16::MIN as int {
        i16::MIN as int
    } else if v > i16::MAX as int {
        i16::MAX as int
    } else {
        v
    }
}

/// Executable counterpart of [`clamp_i16`] on 32-bit intermediates.
pub fn saturate_i16(v: i32) -> (r: i16)
    ensures
        r as int == clamp_i16(v as int),
{
    if v < -32768 {
        -32768
    } else if v > 32767 {
        32767
    } else {
        v as i16
    }
}

/// Signed position on the logical canvas. All arithmetic saturates at the
/// bounds of `i16`.
#[derive(PartialEq, Eq, Structural, Hash, Copy, Clone, Debug)]
pub struct Coord {
    pub x: i16,
    pub y: i16,
}

impl Coord {
    pub fn new(x: i16, y: i16) -> (r: Coord)
        ensures
            r.x == x,
            r.y == y,
    {
        Coord { x, y }
    }

    /// The neighbour of `self` one step in direction `dir`.
    pub open spec fn spec_adjacency(self, dir: Direction) -> Coord {
        Coord {
            x: clamp_i16(self.x + dir.dx()) as i16,
            y: clamp_i16(self.y + dir.dy()) as i16,
        }
    }

    /// `self` seen from `base`.
    pub open spec fn spec_offset(self, base: Coord) -> Coord {
        Coord {
            x: clamp_i16(self.x - base.x) as i16,
            y: clamp_i16(self.y - base.y) as i16,
        }
    }

    /// `self` moved by `rhs`.
    pub open spec fn spec_plus(self, rhs: Coord) -> Coord {
        Coord {
            x: clamp_i16(self.x + rhs.x) as i16,
            y: clamp_i16(self.y + rhs.y) as i16,
        }
    }

    /// `self` mirrored through the origin.
    pub open spec fn spec_negated(self) -> Coord {
        Coord { x: clamp_i16(-self.x) as i16, y: clamp_i16(-self.y) as i16 }
    }

    pub fn adjacency(&self, dir: Direction) -> (r: Coord)
        ensures
            r == self.spec_adjacency(dir),
    {
        match dir {
            Direction::Up => Coord { x: self.x, y: saturate_i16(self.y as i32 - 1) },
            Direction::Left => Coord { x: saturate_i16(self.x as i32 - 1), y: self.y },
            Direction::Right => Coord { x: saturate_i16(self.x as i32 + 1), y: self.y },
            Direction::Down => Coord { x: self.x, y: saturate_i16(self.y as i32 + 1) },
        }
    }

    pub fn offset(&self, base: Coord) -> (r: Coord)
        ensures
            r == self.spec_offset(base),
    {
        Coord {
            x: saturate_i16(self.x as i32 - base.x as i32),
            y: saturate_i16(self.y as i32 - base.y as i32),
        }
    }

    /// Component-wise sum.
    pub fn plus(&self, rhs: Coord) -> (r: Coord)
        ensures
            r == self.spec_plus(rhs),
    {
        Coord {
            x: saturate_i16(self.x as i32 + rhs.x as i32),
            y: saturate_i16(self.y as i32 + rhs.y as i32),
        }
    }

    /// Component-wise difference; the same as [`Coord::offset`].
    pub fn minus(&self, rhs: Coord) -> (r: Coord)
        ensures
            r == self.spec_offset(rhs),
    {
        self.offset(rhs)
    }

    /// Component-wise negation.
    pub fn negated(&self) -> (r: Coord)
        ensures
            r == self.spec_negated(),
    {
        Coord { x: saturate_i16(-(self.x as i32)), y: saturate_i16(-(self.y as i32)) }
    }
}

impl Default for Coord {
    fn default() -> (r: Coord)
        ensures
            r.x == 0,
            r.y == 0,
    {
        Coord { x: 0, y: 0 }
    }
}

} // verus!
