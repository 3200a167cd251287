use vstd::prelude::*;

verus! {

/// The rows of a glyph grid as sequences of characters.
pub open spec fn grid_view(rows: Seq<Vec<char>>) -> Seq<Seq<char>> {
    Seq::new(rows.len(), |y: int| rows[y]@)
}

/// A grid of `height` rows of `width` spaces.
pub open spec fn blank_grid(width: int, height: int) -> Seq<Seq<char>> {
    Seq::new(height as nat, |y: int| Seq::new(width as nat, |x: int| ' '))
}

/// `grid` with the cell in column `x` of row `y` replaced by `c`.
pub open spec fn put(grid: Seq<Seq<char>>, x: int, y: int, c: char) -> Seq<Seq<char>> {
    grid.update(y, grid[y].update(x, c))
}

/// Every row of `grid` has `width` cells, and there are `height` of them.
pub open spec fn is_grid(grid: Seq<Seq<char>>, width: int, height: int) -> bool {
    &&& grid.len() == height
    &&& forall|y: int| 0 <= y < height ==> (#[trigger] grid[y]).len() == width
}

/// The text of a grid: each row followed by a line feed.
pub open spec fn join_rows(grid: Seq<Seq<char>>) -> Seq<char>
    decreases grid.len(),
{
    if grid.len() == 0 {
        Seq::empty()
    } else {
        join_rows(grid.drop_last()) + grid.last() + seq!['\n']
    }
}

pub proof fn lemma_put_is_grid(grid: Seq<Seq<char>>, width: int, height: int, x: int, y: int, c: char)
    requires
        is_grid(grid, width, height),
        0 <= x < width,
        0 <= y < height,
    ensures
        is_grid(put(grid, x, y, c), width, height),
{
}

/// Makes a grid of spaces.
pub fn blank_rows(width: usize, height: usize) -> (r: Vec<Vec<char>>)
    ensures
        grid_view(r@) == blank_grid(width as int, height as int),
        is_grid(grid_view(r@), width as int, height as int),
{
    let mut rows: Vec<Vec<char>> = Vec::new();
    let mut y: usize = 0;
    while y < height
        invariant
            y <= height,
            rows@.len() == y,
            forall|j: int| 0 <= j < y ==> (#[trigger] rows@[j])@ == Seq::new(width as nat, |x: int| ' '),
        decreases height - y,
    {
        let mut row: Vec<char> = Vec::new();
        let mut x: usize = 0;
        while x < width
            invariant
                x <= width,
                row@ == Seq::new(x as nat, |k: int| ' '),
            decreases width - x,
        {
            row.push(' ');
            x += 1;
            assert(row@ =~= Seq::new(x as nat, |k: int| ' '));
        }
        rows.push(row);
        y += 1;
    }
    assert(grid_view(rows@) =~= blank_grid(width as int, height as int));
    rows
}

/// Writes `c` into the cell in column `x` of row `y`.
pub fn put_cell(rows: &mut Vec<Vec<char>>, x: usize, y: usize, c: char)
    requires
        y < old(rows)@.len(),
        x < old(rows)@[y as int]@.len(),
    ensures
        grid_view(final(rows)@) == put(grid_view(old(rows)@), x as int, y as int, c),
        final(rows)@.len() == old(rows)@.len(),
{
    let row = &mut rows[y];
    row.set(x, c);
    assert(grid_view(rows@) =~= put(grid_view(old(rows)@), x as int, y as int, c));
}

/// The text of a grid: each row followed by a line feed.
pub fn join(rows: &Vec<Vec<char>>) -> (r: Vec<char>)
    ensures
        r@ == join_rows(grid_view(rows@)),
{
    let mut out: Vec<char> = Vec::new();
    let mut y: usize = 0;
    assert(grid_view(rows@).take(0) =~= Seq::<Seq<char>>::empty());
    while y < rows.len()
        invariant
            y <= rows.len(),
            out@ == join_rows(grid_view(rows@).take(y as int)),
        decreases rows.len() - y,
    {
        let row = &rows[y];
        let ghost before = out@;
        let mut x: usize = 0;
        while x < row.len()
            invariant
                x <= row.len(),
                out@ == before + row@.take(x as int),
            decreases row.len() - x,
        {
            out.push(row[x]);
            x += 1;
            assert(row@.take(x as int) =~= row@.take(x as int - 1).push(row@[x as int - 1]));
            assert(out@ =~= before + row@.take(x as int));
        }
        out.push('\n');
        proof {
            let g = grid_view(rows@);
            assert(row@.take(row.len() as int) =~= row@);
            assert(g.take(y as int + 1).drop_last() =~= g.take(y as int));
            assert(g.take(y as int + 1).last() == row@);
            assert(out@ =~= before + row@ + seq!['\n']);
        }
        y += 1;
    }
    assert(grid_view(rows@).take(rows.len() as int) =~= grid_view(rows@));
    out
}

} // verus!
