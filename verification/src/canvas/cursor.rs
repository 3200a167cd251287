use crate::util::coord::Coord;
use crate::util::direction::Direction;
use vstd::prelude::*;

verus! {

/// Where the cursor stands after one step in direction `d` from `c`: it
/// stops at 0 on the way up and left, and at the largest coordinate on the
/// way down and right.
pub open spec fn cursor_step(c: Coord, d: Direction) -> Coord {
    match d {
        Direction::Up => Coord {
            x: c.x,
            y: if c.y > 0 {
                (c.y - 1) as i16
            } else {
                c.y
            },
        },
        Direction::Left => Coord {
            x: if c.x > 0 {
                (c.x - 1) as i16
            } else {
                c.x
            },
            y: c.y,
        },
        Direction::Right => Coord {
            x: if c.x < i16::MAX {
                (c.x + 1) as i16
            } else {
                c.x
            },
            y: c.y,
        },
        Direction::Down => Coord {
            x: c.x,
            y: if c.y < i16::MAX {
                (c.y + 1) as i16
            } else {
                c.y
            },
        },
    }
}

/// Where the cursor stands after the steps `moves`, taken in order from `c`.
pub open spec fn cursor_walk(c: Coord, moves: Seq<Direction>) -> Coord
    decreases moves.len(),
{
    if moves.len() == 0 {
        c
    } else {
        cursor_step(cursor_walk(c, moves.drop_last()), moves.last())
    }
}

/// A cursor that starts on the canvas, at a position that is not negative,
/// stays there whatever moves it makes.
pub proof fn lemma_cursor_never_negative(c: Coord, moves: Seq<Direction>)
    requires
        c.x >= 0,
        c.y >= 0,
    ensures
        cursor_walk(c, moves).x >= 0,
        cursor_walk(c, moves).y >= 0,
    decreases moves.len(),
{
    if moves.len() > 0 {
        lemma_cursor_never_negative(c, moves.drop_last());
    }
}

/// Where `c` stands after one cursor step in direction `d`.
pub fn step(c: Coord, d: Direction) -> (r: Coord)
    ensures
        r == cursor_step(c, d),
        c.x >= 0 && c.y >= 0 ==> r.x >= 0 && r.y >= 0,
{
    match d {
        Direction::Up => Coord {
            x: c.x,
            y: if c.y > 0 {
                c.y - 1
            } else {
                c.y
            },
        },
        Direction::Left => Coord {
            x: if c.x > 0 {
                c.x - 1
            } else {
                c.x
            },
            y: c.y,
        },
        Direction::Right => Coord {
            x: if c.x < i16::MAX {
                c.x + 1
            } else {
                c.x
            },
            y: c.y,
        },
        Direction::Down => Coord {
            x: c.x,
            y: if c.y < i16::MAX {
                c.y + 1
            } else {
                c.y
            },
        },
    }
}

/// The position on the canvas that the user points at.
#[derive(Copy, Clone, Hash, Eq, PartialEq, Structural, Debug)]
pub struct Cursor(Coord);

impl View for Cursor {
    type V = Coord;

    closed spec fn view(&self) -> Coord {
        self.0
    }
}

impl Cursor {
    pub fn new(x: i16, y: i16) -> (r: Cursor)
        ensures
            r@ == (Coord { x, y }),
    {
        Cursor(Coord::new(x, y))
    }

    /// Moves one step in direction `d`, and not off the canvas.
    pub fn move_next(&mut self, d: Direction)
        ensures
            final(self)@ == cursor_step(old(self)@, d),
            old(self)@.x >= 0 && old(self)@.y >= 0 ==> final(self)@.x >= 0 && final(self)@.y >= 0,
    {
        self.0 = step(self.0, d);
    }

    pub fn coord(&self) -> (r: Coord)
        ensures
            r == self@,
    {
        self.0
    }

    pub fn x(&self) -> (r: i16)
        ensures
            r == self@.x,
    {
        self.0.x
    }

    pub fn y(&self) -> (r: i16)
        ensures
            r == self@.y,
    {
        self.0.y
    }

    pub fn move_to(&mut self, coord: Coord)
        ensures
            final(self)@ == coord,
    {
        self.0 = coord;
    }
}

impl Default for Cursor {
    fn default() -> (r: Cursor)
        ensures
            r@ == (Coord { x: 0, y: 0 }),
    {
        Cursor(Coord { x: 0, y: 0 })
    }
}

} // verus!
