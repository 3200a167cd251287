//! Drawable primitives: rectangles, orthogonal paths and text blocks.

pub mod grid;
pub mod path;
pub mod rect;
pub mod render;
pub mod style;
pub mod text;

use crate::util::coord::Coord;
use crate::util::size::Size;
use crate::util::width::{char_width, is_blank, str_width};
use grid::{grid_view, join_rows};
use path::{Path, PathView};
use rect::{Rect, RectView};
use render::{
    column_of, draws, grid_widths, inside, lemma_laid_out_glyph, render_rows, row_widths,
    visible_glyphs, Cell, Glyph,
};
use text::{lines_of, text_hit, text_hit_at, text_size, Text};
use vstd::prelude::*;

verus! {

/// A drawable primitive.
#[derive(PartialEq, Eq, Hash, Debug)]
pub enum Shape {
    Rect(Rect),
    Path(Path),
    Text(Text),
}

/// What a shape is.
pub ghost enum ShapeView {
    Rect(RectView),
    Path(PathView),
    Text(Seq<char>),
}

impl View for Shape {
    type V = ShapeView;

    open spec fn view(&self) -> ShapeView {
        match self {
            Shape::Rect(r) => ShapeView::Rect(r@),
            Shape::Path(p) => ShapeView::Path(p@),
            Shape::Text(t) => ShapeView::Text(t@),
        }
    }
}

impl ShapeView {
    /// Bounding box of the shape.
    pub open spec fn size(self) -> Size {
        match self {
            ShapeView::Rect(r) => r.size,
            ShapeView::Path(p) => p.size(),
            ShapeView::Text(s) => text_size(s),
        }
    }

    /// Whether white space of the shape is drawn, hiding what lies under it.
    pub open spec fn fill(self) -> bool {
        !(self is Path)
    }

    /// The glyph grid of the shape, row by row.
    pub open spec fn rows(self) -> Seq<Seq<char>> {
        match self {
            ShapeView::Rect(r) => r.rows(),
            ShapeView::Path(p) => p.rows(),
            ShapeView::Text(s) => lines_of(s),
        }
    }

    /// The glyph grid as text.
    pub open spec fn text(self) -> Seq<char> {
        match self {
            ShapeView::Rect(r) => join_rows(r.rows()),
            ShapeView::Path(p) => join_rows(p.rows()),
            ShapeView::Text(s) => s,
        }
    }

    /// Whether the point `c`, relative to the upper left corner of the
    /// bounding box, is on the shape.
    pub open spec fn hit(self, c: Coord) -> bool {
        match self {
            ShapeView::Rect(r) => r.hit(c),
            ShapeView::Path(p) => p.hit(c),
            ShapeView::Text(s) => text_hit(s, c),
        }
    }

    /// Whether the cell in column `x` of row `y` of the bounding box is on the
    /// shape.
    pub open spec fn hit_at(self, x: int, y: int) -> bool {
        match self {
            ShapeView::Rect(r) => r.hit_at(x, y),
            ShapeView::Path(p) => p.hit_at(x, y),
            ShapeView::Text(s) => text_hit_at(s, x, y),
        }
    }

    /// What is drawn of the shape when its upper left corner lies at `offset`
    /// from the upper left corner of an area of size `area`.
    pub open spec fn glyphs(self, offset: Coord, area: Size) -> Seq<Glyph> {
        visible_glyphs(self.rows(), self.size(), self.fill(), offset, area)
    }
}

/// Every character of the text `s` that can be drawn starts left of the
/// end of its line: the display width of the line is not smaller than what
/// its characters take one by one.
pub open spec fn lines_cover_glyphs(s: Seq<char>) -> bool {
    forall|y: int, i: int|
        0 <= y < lines_of(s).len() && 0 <= i < lines_of(s)[y].len() && !is_blank(lines_of(s)[y][i])
            && char_width(lines_of(s)[y][i]) is Some ==> #[trigger] column_of(
            row_widths(lines_of(s)[y]),
            i,
        ) < str_width(lines_of(s)[y])
}

/// What is drawn can be hit: every cell of a rectangle or a text that is
/// drawn as something else than white space passes the hit test of the shape
/// at its place in the shape. For a text this holds where the width of each
/// line covers its characters.
pub proof fn lemma_drawn_is_hit(shape: ShapeView, offset: Coord, area: Size, k: int)
    requires
        shape is Rect || (shape matches ShapeView::Text(s) && lines_cover_glyphs(s)),
        0 <= k < shape.glyphs(offset, area).len(),
        !is_blank(shape.glyphs(offset, area)[k].2),
    ensures
        shape.hit_at(shape.glyphs(offset, area)[k].0, shape.glyphs(offset, area)[k].1),
{
    let rows = shape.rows();
    lemma_laid_out_glyph(rows, grid_widths(rows), shape.size(), shape.fill(), offset, area, k);
    let g = shape.glyphs(offset, area)[k];
    match shape {
        ShapeView::Text(s) => {
            let row = rows[g.1];
            let widths = grid_widths(rows)[g.1];
            assert(widths == row_widths(row));
            let i = choose|i: int|
                0 <= i < row.len() && g.2 == row[i] && g.0 == #[trigger] column_of(widths, i)
                    && widths[i] is Some;
            assert(char_width(row[i]) is Some);
            assert(column_of(row_widths(lines_of(s)[g.1]), i) < str_width(lines_of(s)[g.1]));
        },
        _ => {},
    }
}

impl Clone for Shape {
    fn clone(&self) -> (r: Shape)
        ensures
            r@ == self@,
            self.wf() ==> r.wf(),
    {
        match self {
            Shape::Rect(r) => Shape::Rect(*r),
            Shape::Path(p) => Shape::Path(p.clone()),
            Shape::Text(t) => Shape::Text(t.clone()),
        }
    }
}

impl Shape {
    /// The shape can be measured and drawn: a path is within its limits.
    pub open spec fn wf(&self) -> bool {
        match self {
            Shape::Path(p) => p.wf(),
            _ => true,
        }
    }

    pub fn size(&self) -> (r: Size)
        requires
            self.wf(),
        ensures
            r == self@.size(),
    {
        match self {
            Shape::Rect(r) => r.size(),
            Shape::Path(p) => p.size(),
            Shape::Text(t) => t.size(),
        }
    }

    /// Fill the shape.
    pub fn fill(&self) -> (r: bool)
        ensures
            r == self@.fill(),
    {
        match self {
            Shape::Rect(r) => r.fill(),
            Shape::Path(p) => p.fill(),
            Shape::Text(t) => t.fill(),
        }
    }

    /// Return true if the coord is on the shape.
    pub fn hit(&self, coord: Coord) -> (r: bool)
        requires
            self.wf(),
        ensures
            r == self@.hit(coord),
    {
        match self {
            Shape::Rect(r) => r.hit(coord),
            Shape::Path(p) => p.hit(coord),
            Shape::Text(t) => t.hit(coord),
        }
    }

    /// The glyph grid of the shape, row by row.
    pub fn rows(&self) -> (r: Vec<Vec<char>>)
        requires
            self.wf(),
        ensures
            grid_view(r@) == self@.rows(),
    {
        match self {
            Shape::Rect(r) => r.rows(),
            Shape::Path(p) => p.rows(),
            Shape::Text(t) => t.rows(),
        }
    }

    /// The glyph grid as text.
    pub fn to_string(&self) -> (r: String)
        requires
            self.wf(),
        ensures
            r@ == self@.text(),
    {
        match self {
            Shape::Rect(r) => r.to_string(),
            Shape::Path(p) => p.to_string(),
            Shape::Text(t) => t.to_string(),
        }
    }

    /// The cells to draw for the shape when its upper left corner lies at
    /// `offset` from the upper left corner of an area of size `area`. The
    /// positions of the cells are relative to that corner of the area, and
    /// all lie inside the area.
    pub fn render(&self, offset: Coord, area: Size) -> (r: Vec<Cell>)
        requires
            self.wf(),
        ensures
            draws(r@, self@.glyphs(offset, area), offset),
            inside(r@, area),
    {
        let rows = self.rows();
        render_rows(&rows, self.size(), self.fill(), offset, area)
    }
}

} // verus!
