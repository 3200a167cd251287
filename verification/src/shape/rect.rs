use super::grid::grid_view;
use super::grid::{join, join_rows};
use super::style::{Chips, Style};
use crate::util::chars::collect_string;
use crate::util::coord::Coord;
use crate::util::size::Size;
use vstd::prelude::*;

verus! {

/// The glyph in column `x` of row `y` of a `width` by `height` box: corners
/// first (the lower right one wins where corners coincide), then the vertical
/// and the horizontal edges, and spaces inside.
pub open spec fn rect_chip(chips: Chips, width: int, height: int, x: int, y: int) -> char {
    if x == width - 1 && y == height - 1 {
        chips.lower_right_corner
    } else if x == 0 && y == height - 1 {
        chips.lower_left_corner
    } else if x == width - 1 && y == 0 {
        chips.upper_right_corner
    } else if x == 0 && y == 0 {
        chips.upper_left_corner
    } else if x == 0 || x == width - 1 {
        chips.vertical
    } else if y == 0 || y == height - 1 {
        chips.horizontal
    } else {
        ' '
    }
}

/// The glyph grid of a box: `height` rows of `width` glyphs.
pub open spec fn rect_rows(chips: Chips, width: int, height: int) -> Seq<Seq<char>> {
    Seq::new(
        height as nat,
        |y: int| Seq::new(width as nat, |x: int| rect_chip(chips, width, height, x, y)),
    )
}

/// A rectangle: its size and the style of its border.
#[derive(PartialEq, Eq, Hash, Copy, Clone, Debug)]
pub struct Rect {
    size: Size,
    line_style: Style,
}

/// What a rectangle is.
pub ghost struct RectView {
    pub size: Size,
    pub line_style: Style,
}

impl View for Rect {
    type V = RectView;

    closed spec fn view(&self) -> RectView {
        RectView { size: self.size, line_style: self.line_style }
    }
}

impl RectView {
    /// The glyph grid of the rectangle.
    pub open spec fn rows(self) -> Seq<Seq<char>> {
        rect_rows(self.line_style.spec_chips(), self.size.width as int, self.size.height as int)
    }

    /// Whether the cell in column `x` of row `y`, counted from the upper
    /// left corner, lies in the rectangle.
    pub open spec fn hit_at(self, x: int, y: int) -> bool {
        0 <= x < self.size.width && 0 <= y < self.size.height
    }

    /// Whether the point `c`, relative to the upper left corner, lies in the
    /// rectangle.
    pub open spec fn hit(self, c: Coord) -> bool {
        self.hit_at(c.x as int, c.y as int)
    }
}

/// The glyph in column `x` of row `y` of a `width` by `height` box.
fn chip_at(chips: &Chips, width: usize, height: usize, x: usize, y: usize) -> (c: char)
    requires
        x < width,
        y < height,
    ensures
        c == rect_chip(*chips, width as int, height as int, x as int, y as int),
{
    if x == width - 1 && y == height - 1 {
        chips.lower_right_corner
    } else if x == 0 && y == height - 1 {
        chips.lower_left_corner
    } else if x == width - 1 && y == 0 {
        chips.upper_right_corner
    } else if x == 0 && y == 0 {
        chips.upper_left_corner
    } else if x == 0 || x == width - 1 {
        chips.vertical
    } else if y == 0 || y == height - 1 {
        chips.horizontal
    } else {
        ' '
    }
}

impl Rect {
    pub fn new(size: Size, line_style: Style) -> (r: Rect)
        ensures
            r@ == (RectView { size, line_style }),
    {
        Rect { size, line_style }
    }

    pub fn set_size(&mut self, size: Size)
        ensures
            final(self)@ == (RectView { size, line_style: old(self)@.line_style }),
    {
        self.size = size;
    }

    pub fn set_next_line_style(&mut self)
        ensures
            final(self)@ == (RectView {
                size: old(self)@.size,
                line_style: old(self)@.line_style.spec_next(),
            }),
    {
        self.line_style = self.line_style.next();
    }

    pub fn size(&self) -> (r: Size)
        ensures
            r == self@.size,
    {
        self.size
    }

    /// The style of the border.
    pub fn line_style(&self) -> (r: Style)
        ensures
            r == self@.line_style,
    {
        self.line_style
    }

    /// A rectangle is opaque: its inside hides what lies under it.
    pub fn fill(&self) -> (r: bool)
        ensures
            r,
    {
        true
    }

    /// Return true if the coord is in the rectangle.
    pub fn hit(&self, coord: Coord) -> (r: bool)
        ensures
            r == self@.hit(coord),
    {
        0 <= coord.x && (coord.x as i32) < self.size.width as i32 && 0 <= coord.y && (
        coord.y as i32) < self.size.height as i32
    }

    /// The glyph grid of the rectangle, row by row.
    pub fn rows(&self) -> (r: Vec<Vec<char>>)
        ensures
            grid_view(r@) == self@.rows(),
    {
        let chips = self.line_style.chips();
        let width = self.size.width as usize;
        let height = self.size.height as usize;
        let mut rows: Vec<Vec<char>> = Vec::new();
        let mut y: usize = 0;
        while y < height
            invariant
                y <= height,
                rows@.len() == y,
                chips == self@.line_style.spec_chips(),
                width == self@.size.width,
                height == self@.size.height,
                forall|j: int|
                    0 <= j < y ==> (#[trigger] rows@[j])@ == Seq::new(
                        width as nat,
                        |x: int| rect_chip(chips, width as int, height as int, x, j),
                    ),
            decreases height - y,
        {
            let mut row: Vec<char> = Vec::new();
            let mut x: usize = 0;
            while x < width
                invariant
                    x <= width,
                    y < height,
                    row@ == Seq::new(
                        x as nat,
                        |k: int| rect_chip(chips, width as int, height as int, k, y as int),
                    ),
                decreases width - x,
            {
                row.push(chip_at(&chips, width, height, x, y));
                x += 1;
                assert(row@ =~= Seq::new(
                    x as nat,
                    |k: int| rect_chip(chips, width as int, height as int, k, y as int),
                ));
            }
            rows.push(row);
            y += 1;
        }
        assert(grid_view(rows@) =~= self@.rows());
        rows
    }

    /// The glyph grid as text: each row followed by a line feed.
    pub fn to_string(&self) -> (r: String)
        ensures
            r@ == join_rows(self@.rows()),
    {
        let rows = self.rows();
        let text = join(&rows);
        collect_string(&text)
    }
}

} // verus!
