use super::grid::grid_view;
use crate::util::chars::char_at;
use crate::util::coord::Coord;
use crate::util::size::Size;
use crate::util::width::{char_width, is_blank, is_blank_char, unicode_char_width};
use vstd::prelude::*;

verus! {

/// One character to draw, at a position relative to the upper left corner of
/// the area that is rendered into.
#[derive(PartialEq, Eq, Structural, Hash, Copy, Clone, Debug)]
pub struct Cell {
    pub x: u16,
    pub y: u16,
    pub ch: char,
}

/// One character of a shape that is drawn: its column and its row, counted
/// from the upper left corner of the shape, and the character.
pub type Glyph = (int, int, char);

/// The display width of each glyph of a row; `None` for a glyph that has none.
pub type Widths = Seq<Option<usize>>;

/// The number of columns that a glyph of the given display width takes: a
/// glyph without a display width takes none.
pub open spec fn glyph_width(width: Option<usize>) -> int {
    match width {
        Some(w) => w as int,
        None => 0,
    }
}

/// The column in which the `i`-th glyph of a row starts: the widths of the
/// glyphs before it, added up.
pub open spec fn column_of(widths: Widths, i: int) -> int
    decreases i,
{
    if i <= 0 {
        0
    } else {
        column_of(widths, i - 1) + glyph_width(widths[i - 1])
    }
}

/// The display width of each character of `row`.
pub open spec fn row_widths(row: Seq<char>) -> Widths {
    Seq::new(row.len(), |i: int| char_width(row[i]))
}

/// The display width of each character of each row.
pub open spec fn grid_widths(rows: Seq<Seq<char>>) -> Seq<Widths> {
    Seq::new(rows.len(), |y: int| row_widths(rows[y]))
}

/// The widths of a grid as sequences.
pub open spec fn widths_view(widths: Seq<Vec<Option<usize>>>) -> Seq<Widths> {
    Seq::new(widths.len(), |y: int| widths[y]@)
}

/// `widths` holds one width for each glyph of `rows`.
pub open spec fn widths_fit(rows: Seq<Seq<char>>, widths: Seq<Widths>) -> bool {
    &&& widths.len() == rows.len()
    &&& forall|y: int| 0 <= y < rows.len() ==> (#[trigger] widths[y]).len() == rows[y].len()
}

/// First visible column (or row) of a shape whose corner lies at `offset`
/// from the corner of the area: `max(0, -offset)`.
pub open spec fn visible_start(offset: int) -> int {
    if offset < 0 {
        -offset
    } else {
        0
    }
}

/// The column (or row) after the last visible one, for an area `area` wide
/// and a shape `extent` wide: `min(area - offset, extent)`, and not below 0.
pub open spec fn visible_end(offset: int, area: int, extent: int) -> int {
    let end = if area - offset < extent {
        area - offset
    } else {
        extent
    };
    if end < 0 {
        0
    } else {
        end
    }
}

/// `n` blanks in row `y`, from column `from` on.
pub open spec fn blanks(from: int, y: int, n: int) -> Seq<Glyph> {
    Seq::new(n as nat, |k: int| (from + k, y, ' '))
}

/// What is drawn for the `i`-th glyph of `row`, which is row `y` of the
/// shape, in the window of columns `start <= col < end`, where the glyphs
/// of the row have the display widths `widths`.
///
/// A glyph is drawn where it ends inside the window: at its own column, or,
/// where the left edge of the window cuts it, as blanks on the columns that
/// are left of it. A glyph without a width is not drawn. White space is
/// drawn only for a shape that fills.
pub open spec fn char_glyphs(
    row: Seq<char>,
    widths: Widths,
    i: int,
    y: int,
    start: int,
    end: int,
    fill: bool,
) -> Seq<Glyph> {
    let c = row[i];
    let s = column_of(widths, i);
    let e = s + glyph_width(widths[i]) - 1;
    let shown = start <= e && e < end && s < end;
    if (widths[i] is None) || !shown {
        Seq::empty()
    } else if s < start {
        if fill {
            blanks(start, y, e - start + 1)
        } else {
            Seq::empty()
        }
    } else if fill || !is_blank(c) {
        seq![(s, y, c)]
    } else {
        Seq::empty()
    }
}

/// What is drawn for the first `n` glyphs of `row`.
pub open spec fn row_glyphs(
    row: Seq<char>,
    widths: Widths,
    y: int,
    start: int,
    end: int,
    fill: bool,
    n: int,
) -> Seq<Glyph>
    decreases n,
{
    if n <= 0 {
        Seq::empty()
    } else {
        row_glyphs(row, widths, y, start, end, fill, n - 1) + char_glyphs(
            row,
            widths,
            n - 1,
            y,
            start,
            end,
            fill,
        )
    }
}

/// What is drawn for the rows `from <= y < to` of `rows`, top row first.
pub open spec fn grid_glyphs(
    rows: Seq<Seq<char>>,
    widths: Seq<Widths>,
    start: int,
    end: int,
    from: int,
    to: int,
    fill: bool,
) -> Seq<Glyph>
    decreases to - from,
{
    if to <= from {
        Seq::empty()
    } else {
        grid_glyphs(rows, widths, start, end, from, to - 1, fill) + row_glyphs(
            rows[to - 1],
            widths[to - 1],
            to - 1,
            start,
            end,
            fill,
            rows[to - 1].len() as int,
        )
    }
}

/// What is drawn of a shape with the glyph grid `rows`, whose glyphs have
/// the display widths `widths`, and the bounding box `size`, when its corner
/// lies at `offset` from the corner of an area of size `area`: nothing where
/// the box misses the area on either axis; else the glyphs of the visible
/// rows in the visible window of columns.
pub open spec fn laid_out(
    rows: Seq<Seq<char>>,
    widths: Seq<Widths>,
    size: Size,
    fill: bool,
    offset: Coord,
    area: Size,
) -> Seq<Glyph> {
    let xs = visible_start(offset.x as int);
    let xe = visible_end(offset.x as int, area.width as int, size.width as int);
    let ys = visible_start(offset.y as int);
    let ye = visible_end(offset.y as int, area.height as int, size.height as int);
    let last = if ye < rows.len() {
        ye
    } else {
        rows.len() as int
    };
    if xs >= xe || ys >= ye {
        Seq::empty()
    } else {
        grid_glyphs(rows, widths, xs, xe, ys, last, fill)
    }
}

/// What is drawn of a shape with the glyph grid `rows` and the bounding box
/// `size`, with the display width that each character has.
pub open spec fn visible_glyphs(
    rows: Seq<Seq<char>>,
    size: Size,
    fill: bool,
    offset: Coord,
    area: Size,
) -> Seq<Glyph> {
    laid_out(rows, grid_widths(rows), size, fill, offset, area)
}

/// `cells` are `glyphs`, each moved by `offset`.
pub open spec fn draws(cells: Seq<Cell>, glyphs: Seq<Glyph>, offset: Coord) -> bool {
    &&& cells.len() == glyphs.len()
    &&& forall|k: int|
        0 <= k < cells.len() ==> {
            &&& (#[trigger] cells[k]).x == offset.x + glyphs[k].0
            &&& cells[k].y == offset.y + glyphs[k].1
            &&& cells[k].ch == glyphs[k].2
        }
}

/// Every cell lies inside an area of size `area`.
pub open spec fn inside(cells: Seq<Cell>, area: Size) -> bool {
    forall|k: int|
        0 <= k < cells.len() ==> (#[trigger] cells[k]).x < area.width && cells[k].y < area.height
}

/// Columns never decrease along a row.
pub proof fn lemma_column_monotone(row: Widths, i: int, j: int)
    requires
        0 <= i <= j,
    ensures
        column_of(row, i) <= column_of(row, j),
    decreases j - i,
{
    if i < j {
        lemma_column_monotone(row, i, j - 1);
    }
}

/// Once a glyph starts at or right of the end of the window, nothing more of
/// the row is drawn.
pub proof fn lemma_rest_hidden(
    row: Seq<char>,
    widths: Widths,
    y: int,
    start: int,
    end: int,
    fill: bool,
    i: int,
    n: int,
)
    requires
        0 <= i <= n,
        column_of(widths, i) >= end,
    ensures
        row_glyphs(row, widths, y, start, end, fill, n) == row_glyphs(
            row,
            widths,
            y,
            start,
            end,
            fill,
            i,
        ),
    decreases n - i,
{
    if i < n {
        lemma_rest_hidden(row, widths, y, start, end, fill, i, n - 1);
        lemma_column_monotone(widths, i, n - 1);
        assert(char_glyphs(row, widths, n - 1, y, start, end, fill) =~= Seq::<Glyph>::empty());
        assert(row_glyphs(row, widths, y, start, end, fill, n) =~= row_glyphs(
            row,
            widths,
            y,
            start,
            end,
            fill,
            i,
        ));
    }
}

/// What a drawn glyph is: it lies in the window of columns and in its row,
/// and it is a blank or a glyph of the row at the column where that glyph
/// starts.
pub open spec fn glyph_of_row(g: Glyph, row: Seq<char>, widths: Widths, y: int, start: int, end: int) -> bool {
    &&& start <= g.0 < end
    &&& g.1 == y
    &&& is_blank(g.2) || exists|i: int|
        0 <= i < row.len() && g.2 == row[i] && g.0 == #[trigger] column_of(widths, i) && widths[i] is Some
}

/// Every glyph that is drawn of the first `n` glyphs of a row is a blank or
/// one of them, at its column, inside the window.
pub proof fn lemma_row_glyph(
    row: Seq<char>,
    widths: Widths,
    y: int,
    start: int,
    end: int,
    fill: bool,
    n: int,
    k: int,
)
    requires
        0 <= start,
        n <= row.len(),
        0 <= k < row_glyphs(row, widths, y, start, end, fill, n).len(),
    ensures
        glyph_of_row(row_glyphs(row, widths, y, start, end, fill, n)[k], row, widths, y, start, end),
    decreases n,
{
    let before = row_glyphs(row, widths, y, start, end, fill, n - 1);
    let more = char_glyphs(row, widths, n - 1, y, start, end, fill);
    if k < before.len() {
        lemma_row_glyph(row, widths, y, start, end, fill, n - 1, k);
        assert((before + more)[k] == before[k]);
    } else {
        let g = more[k - before.len()];
        assert((before + more)[k] == g);
        if column_of(widths, n - 1) < start {
            assert(g.2 == ' ');
        } else {
            assert(g.2 == row[n - 1] && g.0 == column_of(widths, n - 1));
        }
    }
}

/// Every glyph that is drawn of the rows `from <= y < to` is a blank or a
/// glyph of its row, at its column, inside the window.
pub proof fn lemma_grid_glyph(
    rows: Seq<Seq<char>>,
    widths: Seq<Widths>,
    start: int,
    end: int,
    from: int,
    to: int,
    fill: bool,
    k: int,
)
    requires
        0 <= start,
        0 <= from,
        to <= rows.len(),
        0 <= k < grid_glyphs(rows, widths, start, end, from, to, fill).len(),
    ensures
        ({
            let g = grid_glyphs(rows, widths, start, end, from, to, fill)[k];
            from <= g.1 < to && glyph_of_row(g, rows[g.1], widths[g.1], g.1, start, end)
        }),
    decreases to - from,
{
    let before = grid_glyphs(rows, widths, start, end, from, to - 1, fill);
    let more = row_glyphs(
        rows[to - 1],
        widths[to - 1],
        to - 1,
        start,
        end,
        fill,
        rows[to - 1].len() as int,
    );
    if k < before.len() {
        lemma_grid_glyph(rows, widths, start, end, from, to - 1, fill, k);
        assert((before + more)[k] == before[k]);
    } else {
        lemma_row_glyph(
            rows[to - 1],
            widths[to - 1],
            to - 1,
            start,
            end,
            fill,
            rows[to - 1].len() as int,
            k - before.len(),
        );
        assert((before + more)[k] == more[k - before.len()]);
    }
}

/// Every glyph that is drawn of a shape lies in a row of its grid and inside
/// its bounding box, and is a blank or a glyph of that row at its column.
pub proof fn lemma_laid_out_glyph(
    rows: Seq<Seq<char>>,
    widths: Seq<Widths>,
    size: Size,
    fill: bool,
    offset: Coord,
    area: Size,
    k: int,
)
    requires
        0 <= k < laid_out(rows, widths, size, fill, offset, area).len(),
    ensures
        ({
            let g = laid_out(rows, widths, size, fill, offset, area)[k];
            &&& 0 <= g.0 < size.width
            &&& 0 <= g.1 < size.height
            &&& g.1 < rows.len()
            &&& glyph_of_row(g, rows[g.1], widths[g.1], g.1, 0, size.width as int)
        }),
{
    let xs = visible_start(offset.x as int);
    let xe = visible_end(offset.x as int, area.width as int, size.width as int);
    let ys = visible_start(offset.y as int);
    let ye = visible_end(offset.y as int, area.height as int, size.height as int);
    let last = if ye < rows.len() {
        ye
    } else {
        rows.len() as int
    };
    lemma_grid_glyph(rows, widths, xs, xe, ys, last, fill, k);
}

/// First visible column (or row): `max(0, -offset)`.
fn range_start(offset: i16) -> (r: usize)
    ensures
        r == visible_start(offset as int),
{
    if offset < 0 {
        (-(offset as i32)) as usize
    } else {
        0
    }
}

/// End of the visible columns (or rows): `min(area - offset, extent)`, and
/// not below 0.
fn range_end(offset: i16, area: u16, extent: u16) -> (r: usize)
    ensures
        r == visible_end(offset as int, area as int, extent as int),
{
    let limit: i32 = area as i32 - offset as i32;
    let end: i32 = if limit < extent as i32 {
        limit
    } else {
        extent as i32
    };
    if end < 0 {
        0
    } else {
        end as usize
    }
}

/// Appends to `out` what is drawn of `row`, which is row `y` of a shape, in
/// the window of columns `start <= col < end`.
fn render_row(
    row: &Vec<char>,
    widths: &Vec<Option<usize>>,
    y: usize,
    start: usize,
    end: usize,
    fill: bool,
    offset: Coord,
    area: Size,
    out: &mut Vec<Cell>,
    Ghost(before): Ghost<Seq<Glyph>>,
)
    requires
        widths@.len() == row@.len(),
        start < end,
        start == visible_start(offset.x as int),
        end <= area.width - offset.x,
        0 <= offset.y + y < area.height,
        draws(old(out)@, before, offset),
        inside(old(out)@, area),
    ensures
        draws(
            final(out)@,
            before + row_glyphs(row@, widths@, y as int, start as int, end as int, fill, row@.len() as int),
            offset,
        ),
        inside(final(out)@, area),
{
    let cy: u16 = (offset.y as i32 + y as i32) as u16;
    let mut s: usize = 0;
    let mut i: usize = 0;
    while i < row.len() && s < end
        invariant
            i <= row.len(),
            widths@.len() == row@.len(),
            start < end,
            start == visible_start(offset.x as int),
            end <= area.width - offset.x,
            cy == offset.y + y,
            cy < area.height,
            s == column_of(widths@, i as int),
            draws(
                out@,
                before + row_glyphs(row@, widths@, y as int, start as int, end as int, fill, i as int),
                offset,
            ),
            inside(out@, area),
        decreases row.len() - i,
    {
        let c = char_at(row, i);
        let ghost drawn = before + row_glyphs(row@, widths@, y as int, start as int, end as int, fill, i as int);
        let ghost more = char_glyphs(row@, widths@, i as int, y as int, start as int, end as int, fill);
        match widths[i] {
            None => {
                assert(more =~= Seq::<Glyph>::empty());
                assert(drawn + more =~= drawn);
            },
            Some(w) => {
                if w > end - s {
                    // The glyph ends right of the window, and so do all that follow.
                    assert(more =~= Seq::<Glyph>::empty());
                    assert(drawn + more =~= drawn);
                    proof {
                        lemma_rest_hidden(
                            row@,
                            widths@,
                            y as int,
                            start as int,
                            end as int,
                            fill,
                            i as int + 1,
                            row@.len() as int,
                        );
                        assert(before + row_glyphs(
                            row@,
                            widths@,
                            y as int,
                            start as int,
                            end as int,
                            fill,
                            i as int + 1,
                        ) =~= drawn + more);
                    }
                    return;
                }
                let next = s + w;
                if next <= start {
                    // The glyph ends left of the window.
                    assert(more =~= Seq::<Glyph>::empty());
                    assert(drawn + more =~= drawn);
                    } else if s < start {
                    // The left edge of the window cuts the glyph.
                    if fill {
                        let mut col: usize = start;
                        while col < next
                            invariant
                                start <= col <= next,
                                next <= end,
                                s < start,
                                next == s + w,
                                start == visible_start(offset.x as int),
                                end <= area.width - offset.x,
                                cy == offset.y + y,
                                cy < area.height,
                                draws(out@, drawn + blanks(start as int, y as int, col - start), offset),
                                inside(out@, area),
                            decreases next - col,
                        {
                            let cx: u16 = (offset.x as i32 + col as i32) as u16;
                            out.push(Cell { x: cx, y: cy, ch: ' ' });
                            col += 1;
                            assert(drawn + blanks(start as int, y as int, col - start) =~= (drawn
                                + blanks(start as int, y as int, col - 1 - start)).push(
                                (col - 1, y as int, ' '),
                            ));
                        }
                        assert(more =~= blanks(start as int, y as int, next - start));
                            } else {
                        assert(more =~= Seq::<Glyph>::empty());
                        assert(drawn + more =~= drawn);
                            }
                } else if fill || !is_blank_char(c) {
                    assert(0 <= offset.x + s < area.width);
                    let cx: u16 = (offset.x as i32 + s as i32) as u16;
                    out.push(Cell { x: cx, y: cy, ch: c });
                    assert(more =~= seq![(s as int, y as int, c)]);
                    assert(drawn + more =~= drawn.push((s as int, y as int, c)));
                } else {
                    assert(more =~= Seq::<Glyph>::empty());
                    assert(drawn + more =~= drawn);
                    }
                s = next;
            },
        }
        i += 1;
        assert(before + row_glyphs(row@, widths@, y as int, start as int, end as int, fill, i as int) =~= drawn
            + more);
    }
    proof {
        if i < row.len() {
            lemma_rest_hidden(
                row@,
                widths@,
                y as int,
                start as int,
                end as int,
                fill,
                i as int,
                row@.len() as int,
            );
        }
    }
}

/// The cells to draw for a shape with the glyph grid `rows`, whose glyphs
/// have the display widths `widths`, and the bounding box `size`, when its
/// upper left corner lies at `offset` from the upper left corner of an area
/// of size `area`.
pub fn layout_rows(
    rows: &Vec<Vec<char>>,
    widths: &Vec<Vec<Option<usize>>>,
    size: Size,
    fill: bool,
    offset: Coord,
    area: Size,
) -> (r: Vec<Cell>)
    requires
        widths_fit(grid_view(rows@), widths_view(widths@)),
    ensures
        draws(
            r@,
            laid_out(grid_view(rows@), widths_view(widths@), size, fill, offset, area),
            offset,
        ),
        inside(r@, area),
{
    let xs = range_start(offset.x);
    let xe = range_end(offset.x, area.width, size.width);
    let ys = range_start(offset.y);
    let ye = range_end(offset.y, area.height, size.height);
    let mut out: Vec<Cell> = Vec::new();
    if xs >= xe || ys >= ye {
        return out;
    }
    let ghost grid = grid_view(rows@);
    let ghost wide = widths_view(widths@);
    let mut y: usize = ys;
    while y < ye && y < rows.len()
        invariant
            ys <= y <= ye,
            ys < ye,
            xs < xe,
            xs == visible_start(offset.x as int),
            xe == visible_end(offset.x as int, area.width as int, size.width as int),
            ys == visible_start(offset.y as int),
            ye == visible_end(offset.y as int, area.height as int, size.height as int),
            grid == grid_view(rows@),
            wide == widths_view(widths@),
            widths_fit(grid, wide),
            y <= rows.len() || ys == y,
            draws(
                out@,
                grid_glyphs(grid, wide, xs as int, xe as int, ys as int, y as int, fill),
                offset,
            ),
            inside(out@, area),
        decreases ye - y,
    {
        let ghost before = grid_glyphs(grid, wide, xs as int, xe as int, ys as int, y as int, fill);
        assert(grid[y as int] == rows@[y as int]@);
        assert(wide[y as int] == widths@[y as int]@);
        render_row(&rows[y], &widths[y], y, xs, xe, fill, offset, area, &mut out, Ghost(before));
        y += 1;
    }
    proof {
        let last = if ye < rows.len() {
            ye as int
        } else {
            rows.len() as int
        };
        if ys >= rows.len() {
            assert(y == ys);
            assert(grid_glyphs(grid, wide, xs as int, xe as int, ys as int, last, fill) =~= Seq::<
                Glyph,
            >::empty());
        } else {
            assert(y == last);
        }
    }
    out
}

/// The display width of each character of each row.
pub fn measure_rows(rows: &Vec<Vec<char>>) -> (r: Vec<Vec<Option<usize>>>)
    ensures
        widths_view(r@) == grid_widths(grid_view(rows@)),
        widths_fit(grid_view(rows@), widths_view(r@)),
{
    let mut all: Vec<Vec<Option<usize>>> = Vec::new();
    let mut y: usize = 0;
    while y < rows.len()
        invariant
            y <= rows.len(),
            all@.len() == y,
            forall|j: int| 0 <= j < y ==> (#[trigger] all@[j])@ == row_widths(rows@[j]@),
        decreases rows.len() - y,
    {
        let row = &rows[y];
        let mut widths: Vec<Option<usize>> = Vec::new();
        let mut i: usize = 0;
        while i < row.len()
            invariant
                i <= row.len(),
                widths@.len() == i,
                forall|k: int| 0 <= k < i ==> #[trigger] widths@[k] == char_width(row@[k]),
            decreases row.len() - i,
        {
            widths.push(unicode_char_width(char_at(row, i)));
            i += 1;
        }
        assert(widths@ =~= row_widths(row@));
        all.push(widths);
        y += 1;
    }
    proof {
        assert(widths_view(all@) =~= grid_widths(grid_view(rows@)));
    }
    all
}

/// The cells to draw for a shape with the glyph grid `rows` and the bounding
/// box `size`, whose upper left corner lies at `offset` from the upper left
/// corner of an area of size `area`.
pub fn render_rows(rows: &Vec<Vec<char>>, size: Size, fill: bool, offset: Coord, area: Size) -> (r:
    Vec<Cell>)
    ensures
        draws(r@, visible_glyphs(grid_view(rows@), size, fill, offset, area), offset),
        inside(r@, area),
{
    let widths = measure_rows(rows);
    layout_rows(rows, &widths, size, fill, offset, area)
}

} // verus!
