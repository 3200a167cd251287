use crate::shape::render::{
    blanks, char_glyphs, column_of, glyph_width, lemma_rest_hidden, row_glyphs, row_widths, Glyph,
    Widths,
};
use crate::util::chars::{char_at, chars_of, collect_string};
use crate::util::width::{char_width, unicode_char_width};
use vstd::prelude::*;

verus! {

/// The characters of `glyphs`, in order.
pub open spec fn glyph_chars(glyphs: Seq<Glyph>) -> Seq<char> {
    Seq::new(glyphs.len(), |k: int| glyphs[k].2)
}

/// What is seen of `row` in the window of columns `start <= col < end`, where
/// the glyphs of the row have the display widths `widths`: the glyphs that
/// end inside the window, with blanks in place of a glyph that the left edge
/// of the window cuts.
pub open spec fn sliced(row: Seq<char>, widths: Widths, start: int, end: int) -> Seq<char> {
    glyph_chars(row_glyphs(row, widths, 0, start, end, true, row.len() as int))
}

/// Slices a row of glyphs by display width.
pub fn slice_chars_by_width(
    row: &Vec<char>,
    widths: &Vec<Option<usize>>,
    start: usize,
    end: usize,
) -> (r: Vec<char>)
    requires
        widths@.len() == row@.len(),
    ensures
        r@ == sliced(row@, widths@, start as int, end as int),
{
    let mut out: Vec<char> = Vec::new();
    let mut s: usize = 0;
    let mut i: usize = 0;
    assert(out@ =~= glyph_chars(row_glyphs(row@, widths@, 0, start as int, end as int, true, 0)));
    while i < row.len() && s < end
        invariant
            i <= row.len(),
            widths@.len() == row@.len(),
            s == column_of(widths@, i as int),
            out@ == glyph_chars(
                row_glyphs(row@, widths@, 0, start as int, end as int, true, i as int),
            ),
        decreases row.len() - i,
    {
        let c = char_at(row, i);
        let ghost drawn = row_glyphs(row@, widths@, 0, start as int, end as int, true, i as int);
        let ghost more = char_glyphs(row@, widths@, i as int, 0, start as int, end as int, true);
        match widths[i] {
            None => {
                assert(more =~= Seq::<Glyph>::empty());
            },
            Some(w) => {
                if w > end - s {
                    proof {
                        assert(more =~= Seq::<Glyph>::empty());
                        assert(drawn + more =~= drawn);
                        lemma_rest_hidden(
                            row@,
                            widths@,
                            0,
                            start as int,
                            end as int,
                            true,
                            i as int + 1,
                            row@.len() as int,
                        );
                    }
                    return out;
                }
                let next = s + w;
                if next <= start {
                    assert(more =~= Seq::<Glyph>::empty());
                } else if s < start {
                    let mut col: usize = start;
                    while col < next
                        invariant
                            start <= col <= next,
                            out@ == glyph_chars(drawn + blanks(start as int, 0, col - start)),
                        decreases next - col,
                    {
                        out.push(' ');
                        col += 1;
                        assert(glyph_chars(drawn + blanks(start as int, 0, col - start))
                            =~= glyph_chars(drawn + blanks(start as int, 0, col - 1 - start)).push(
                            ' ',
                        ));
                    }
                    assert(more =~= blanks(start as int, 0, next - start));
                } else {
                    out.push(c);
                    assert(glyph_width(widths@[i as int]) == w);
                    assert(more =~= seq![(s as int, 0int, c)]);
                    assert(glyph_chars(drawn + more) =~= glyph_chars(drawn).push(c));
                }
                s = next;
            },
        }
        i += 1;
        assert(glyph_chars(
            row_glyphs(row@, widths@, 0, start as int, end as int, true, i as int),
        ) =~= glyph_chars(drawn + more));
    }
    proof {
        if i < row.len() {
            lemma_rest_hidden(
                row@,
                widths@,
                0,
                start as int,
                end as int,
                true,
                i as int,
                row@.len() as int,
            );
        }
    }
    out
}

/// Slice string by width: what is seen of `s` in the window of columns
/// `start <= col < end`, and a line feed after it.
///
/// `slice_by_width("0123456789", 3, 5)` is `"34\n"`, and
/// `slice_by_width("01あ456789", 3, 5)` is `" 4\n"`: the window cuts the wide
/// character, which shows as a blank.
pub fn slice_by_width(s: &str, start: usize, end: usize) -> (r: String)
    ensures
        r@ == sliced(s@, row_widths(s@), start as int, end as int).push('\n'),
{
    let row = chars_of(s);
    let mut widths: Vec<Option<usize>> = Vec::new();
    let mut i: usize = 0;
    while i < row.len()
        invariant
            i <= row.len(),
            widths@.len() == i,
            forall|k: int| 0 <= k < i ==> #[trigger] widths@[k] == char_width(row@[k]),
        decreases row.len() - i,
    {
        widths.push(unicode_char_width(char_at(&row, i)));
        i += 1;
    }
    assert(widths@ =~= row_widths(row@));
    let mut out = slice_chars_by_width(&row, &widths, start, end);
    out.push('\n');
    collect_string(&out)
}

} // verus!
