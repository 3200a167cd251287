use crate::util::chars::{chars_of, collect_string};
use crate::util::coord::Coord;
use crate::util::size::Size;
use crate::util::width::{str_width, unicode_str_width};
use vstd::prelude::*;

verus! {

/// A line without the carriage return that may end it.
pub open spec fn strip_cr(line: Seq<char>) -> Seq<char> {
    if line.len() > 0 && line.last() == '\r' {
        line.drop_last()
    } else {
        line
    }
}

/// Reads `s` from left to right: the lines that a line feed has closed so
/// far, and the characters read since the last line feed. A closed line
/// loses the carriage return before its line feed.
pub open spec fn scan_lines(s: Seq<char>) -> (Seq<Seq<char>>, Seq<char>)
    decreases s.len(),
{
    if s.len() == 0 {
        (Seq::empty(), Seq::empty())
    } else {
        let (closed, open) = scan_lines(s.drop_last());
        if s.last() == '\n' {
            (closed.push(strip_cr(open)), Seq::empty())
        } else {
            (closed, open.push(s.last()))
        }
    }
}

/// The lines of `s`: split at each line feed, or carriage return and line
/// feed. The last line needs no line ending, and an ending at the very end
/// opens no further line.
pub open spec fn lines_of(s: Seq<char>) -> Seq<Seq<char>> {
    let (closed, open) = scan_lines(s);
    if open.len() > 0 {
        closed.push(open)
    } else {
        closed
    }
}

/// The largest of `widths`, or 0 where there is none.
pub open spec fn max_width(widths: Seq<usize>) -> int
    decreases widths.len(),
{
    if widths.len() == 0 {
        0
    } else {
        let rest = max_width(widths.drop_last());
        if widths.last() > rest {
            widths.last() as int
        } else {
            rest
        }
    }
}

/// The display width of each line.
pub open spec fn widths_of(lines: Seq<Seq<char>>) -> Seq<usize> {
    Seq::new(lines.len(), |i: int| str_width(lines[i]))
}

/// `v`, or 65535 where `v` is larger.
pub open spec fn clamp_u16(v: int) -> int {
    if v > u16::MAX as int {
        u16::MAX as int
    } else {
        v
    }
}

/// The bounding box of lines with the given display widths: as wide as the
/// widest, as high as there are lines, each at most 65535.
pub fn size_of_widths(widths: &Vec<usize>) -> (r: Size)
    ensures
        r.width == clamp_u16(max_width(widths@)),
        r.height == clamp_u16(widths@.len() as int),
{
    let mut w: usize = 0;
    let mut i: usize = 0;
    assert(widths@.take(0) =~= Seq::<usize>::empty());
    while i < widths.len()
        invariant
            i <= widths.len(),
            w == max_width(widths@.take(i as int)),
        decreases widths.len() - i,
    {
        proof {
            assert(widths@.take(i as int + 1).drop_last() =~= widths@.take(i as int));
        }
        if widths[i] > w {
            w = widths[i];
        }
        i += 1;
    }
    assert(widths@.take(widths.len() as int) =~= widths@);
    let width: u16 = if w > 65535 {
        65535
    } else {
        w as u16
    };
    let height: u16 = if widths.len() > 65535 {
        65535
    } else {
        widths.len() as u16
    };
    Size::new(width, height)
}

/// Splits `s` into its lines.
pub fn split_lines(s: &Vec<char>) -> (r: Vec<Vec<char>>)
    ensures
        super::grid::grid_view(r@) == lines_of(s@),
{
    let mut closed: Vec<Vec<char>> = Vec::new();
    let mut open: Vec<char> = Vec::new();
    let mut i: usize = 0;
    assert(s@.take(0) =~= Seq::<char>::empty());
    while i < s.len()
        invariant
            i <= s.len(),
            super::grid::grid_view(closed@) == scan_lines(s@.take(i as int)).0,
            open@ == scan_lines(s@.take(i as int)).1,
        decreases s.len() - i,
    {
        proof {
            assert(s@.take(i as int + 1).drop_last() =~= s@.take(i as int));
        }
        let c = s[i];
        if c == '\n' {
            let n = open.len();
            if n > 0 && open[n - 1] == '\r' {
                open.pop();
            }
            let ghost before = super::grid::grid_view(closed@);
            closed.push(open);
            assert(super::grid::grid_view(closed@) =~= before.push(
                strip_cr(scan_lines(s@.take(i as int)).1),
            ));
            open = Vec::new();
        } else {
            open.push(c);
        }
        i += 1;
    }
    assert(s@.take(s.len() as int) =~= s@);
    if open.len() > 0 {
        let ghost before = super::grid::grid_view(closed@);
        closed.push(open);
        assert(super::grid::grid_view(closed@) =~= before.push(scan_lines(s@).1));
    }
    closed
}

/// Whether column `x` lies on a line of the display width `width`.
pub fn within_width(x: i16, width: usize) -> (r: bool)
    ensures
        r == (0 <= x < width),
{
    x >= 0 && (x as usize) < width
}

/// The display width of each of `lines`.
pub fn measure_lines(lines: &Vec<Vec<char>>) -> (r: Vec<usize>)
    ensures
        r@ == widths_of(super::grid::grid_view(lines@)),
{
    let mut widths: Vec<usize> = Vec::new();
    let mut i: usize = 0;
    while i < lines.len()
        invariant
            i <= lines.len(),
            widths@.len() == i,
            forall|j: int| 0 <= j < i ==> #[trigger] widths@[j] == str_width(lines@[j]@),
        decreases lines.len() - i,
    {
        widths.push(unicode_str_width(&lines[i]));
        i += 1;
    }
    assert(widths@ =~= widths_of(super::grid::grid_view(lines@)));
    widths
}

/// A block of text, which may hold line feeds.
#[derive(PartialEq, Eq, Hash, Debug)]
pub struct Text {
    s: Vec<char>,
}

impl View for Text {
    type V = Seq<char>;

    closed spec fn view(&self) -> Seq<char> {
        self.s@
    }
}

impl Clone for Text {
    fn clone(&self) -> (r: Text)
        ensures
            r@ == self@,
    {
        let mut s: Vec<char> = Vec::new();
        let mut i: usize = 0;
        while i < self.s.len()
            invariant
                i <= self.s.len(),
                s@ == self.s@.take(i as int),
            decreases self.s.len() - i,
        {
            s.push(self.s[i]);
            i += 1;
        }
        assert(self.s@.take(self.s.len() as int) =~= self.s@);
        Text { s }
    }
}

/// The bounding box of the text `s`.
pub open spec fn text_size(s: Seq<char>) -> Size {
    Size {
        width: clamp_u16(max_width(widths_of(lines_of(s)))) as u16,
        height: clamp_u16(lines_of(s).len() as int) as u16,
    }
}

/// Whether the cell in column `x` of row `y`, counted from the first
/// character, lies on a line of the text `s`, left of the line's end.
pub open spec fn text_hit_at(s: Seq<char>, x: int, y: int) -> bool {
    &&& 0 <= x
    &&& 0 <= y < lines_of(s).len()
    &&& x < str_width(lines_of(s)[y])
}

/// Whether the point `c`, relative to the first character, lies on a line
/// of the text `s`, left of the line's end.
pub open spec fn text_hit(s: Seq<char>, c: Coord) -> bool {
    text_hit_at(s, c.x as int, c.y as int)
}

/// Display width of what follows the last line feed of `s`; `None` for the
/// empty text.
pub open spec fn text_last_line_width(s: Seq<char>) -> Option<usize> {
    if s.len() == 0 {
        None
    } else if s.last() == '\n' {
        Some(0)
    } else {
        Some(str_width(lines_of(s).last()))
    }
}

impl Text {
    pub fn new(s: String) -> (r: Text)
        ensures
            r@ == s@,
    {
        Text { s: chars_of(s.as_str()) }
    }

    pub fn push(&mut self, c: char)
        ensures
            final(self)@ == old(self)@.push(c),
    {
        self.s.push(c);
    }

    pub fn pop(&mut self) -> (r: Option<char>)
        ensures
            old(self)@.len() == 0 ==> r is None && final(self)@ == old(self)@,
            old(self)@.len() > 0 ==> r == Some(old(self)@.last()) && final(self)@
                == old(self)@.drop_last(),
    {
        self.s.pop()
    }

    /// Returns the last line width.
    /// If the text ends with a line feed, it returns 0; for the empty text, `None`.
    pub fn last_line_width(&self) -> (r: Option<usize>)
        ensures
            r == text_last_line_width(self@),
    {
        let n = self.s.len();
        if n == 0 {
            None
        } else if self.s[n - 1] == '\n' {
            Some(0)
        } else {
            let lines = split_lines(&self.s);
            proof {
                assert(self.s@.last() != '\n');
                assert(scan_lines(self.s@).1.len() > 0);
                assert(lines@.len() > 0);
                assert(super::grid::grid_view(lines@).last() == lines@[lines@.len() - 1]@);
            }
            Some(unicode_str_width(&lines[lines.len() - 1]))
        }
    }

    pub fn is_empty(&self) -> (r: bool)
        ensures
            r == (self@.len() == 0),
    {
        self.s.len() == 0
    }

    /// The text itself.
    pub fn to_string(&self) -> (r: String)
        ensures
            r@ == self@,
    {
        collect_string(&self.s)
    }

    /// The lines of the text: its glyph grid.
    pub fn rows(&self) -> (r: Vec<Vec<char>>)
        ensures
            super::grid::grid_view(r@) == lines_of(self@),
    {
        split_lines(&self.s)
    }

    /// Width of the widest line and number of lines, each at most 65535.
    pub fn size(&self) -> (r: Size)
        ensures
            r == text_size(self@),
    {
        let lines = split_lines(&self.s);
        let widths = measure_lines(&lines);
        size_of_widths(&widths)
    }

    /// Text is opaque: its blanks hide what lies under them.
    pub fn fill(&self) -> (r: bool)
        ensures
            r,
    {
        true
    }

    /// Return true if the coord is on a line of the text.
    pub fn hit(&self, coord: Coord) -> (r: bool)
        ensures
            r == text_hit(self@, coord),
    {
        if coord.x < 0 || coord.y < 0 {
            return false;
        }
        let lines = split_lines(&self.s);
        let y = coord.y as usize;
        if y < lines.len() {
            let width = unicode_str_width(&lines[y]);
            proof {
                assert(super::grid::grid_view(lines@)[y as int] == lines@[y as int]@);
            }
            within_width(coord.x, width)
        } else {
            false
        }
    }
}

} // verus!
