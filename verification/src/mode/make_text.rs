use super::normal::NormalMode;
use super::{key_of, pressed, Mode, ModeView};
use crate::canvas::handler::CanvasHandler;
use crate::editor::{AppOp, AppOpView};
use crate::keybind::{Event, KeyCode};
use crate::shape::text::{text_last_line_width, Text};
use crate::shape::{Shape, ShapeView};
use crate::util::coord::{clamp_i16, saturate_i16, Coord};
use crate::util::width::{char_width, unicode_char_width};
use vstd::prelude::*;
use vstd::string::StringExecFns;

verus! {

/// MakeText mode as the contracts see it: where the text starts, and the
/// text typed so far.
pub ghost struct MakeTextView {
    pub start: Coord,
    pub text: Seq<char>,
}

impl MakeTextView {
    /// The mode as entered with the cursor at `cursor`: no text yet.
    pub open spec fn initial(cursor: Coord) -> MakeTextView {
        MakeTextView { start: cursor, text: Seq::empty() }
    }
}

/// `c` moved `columns` to the right, or to the left where `columns` is
/// negative.
pub open spec fn shifted(c: Coord, columns: int) -> Coord {
    Coord { x: clamp_i16(c.x + columns) as i16, y: c.y }
}

/// The number of columns of a width that may be missing.
pub open spec fn columns(width: Option<usize>) -> int {
    match width {
        Some(w) => w as int,
        None => 0,
    }
}

/// The display width of the character that the event `e` types, if it types
/// one that has a width.
pub open spec fn typed_width(e: Event) -> Option<usize> {
    match pressed(e) {
        Some(KeyCode::Char(c)) => char_width(c),
        _ => None,
    }
}

/// The display width by which the cursor goes back when the last character
/// of `text` is taken back: after a line feed, the width of the line that is
/// the last one then; after another character, its own width.
pub open spec fn erased_width(text: Seq<char>) -> Option<usize> {
    if text.len() == 0 {
        None
    } else if text.last() == '\n' {
        text_last_line_width(text.drop_last())
    } else {
        char_width(text.last())
    }
}

/// Where the cursor goes when the last character of `text` is taken back, and
/// `width` is the width that this takes away: after a line feed, up one row
/// and right to the end of the line; after another character, left by its
/// width.
pub open spec fn cursor_after_backspace(text: Seq<char>, cursor: Coord, width: Option<usize>) -> Coord {
    if text.len() == 0 {
        cursor
    } else if text.last() == '\n' {
        Coord {
            x: clamp_i16(cursor.x + columns(width)) as i16,
            y: clamp_i16(cursor.y - 1) as i16,
        }
    } else {
        shifted(cursor, -columns(width))
    }
}

/// What MakeText mode does with the event `e`, while the cursor stands at
/// `cursor`, where `typed` is the display width of the character that is
/// typed and `erased` the one that Backspace takes away:
///
/// - a character that has a display width is added to the text, and the
///   cursor moves right by that width; a character without one, as a
///   control character, is left out;
/// - Enter adds a line feed, and the cursor goes to the start column of the
///   next row;
/// - Backspace takes the last character back and the cursor with it;
/// - Esc returns to Normal mode, and places the text unless it is empty;
/// - anything else changes nothing.
pub open spec fn make_text_step(
    v: MakeTextView,
    e: Event,
    cursor: Coord,
    typed: Option<usize>,
    erased: Option<usize>,
) -> (ModeView, AppOpView) {
    match pressed(e) {
        Some(KeyCode::Esc) => (
            ModeView::Normal,
            if v.text.len() == 0 {
                AppOpView::Nop
            } else {
                AppOpView::MakeShape(v.start, ShapeView::Text(v.text))
            },
        ),
        Some(KeyCode::Char(c)) => match typed {
            Some(w) => (
                ModeView::MakeText(MakeTextView { text: v.text.push(c), ..v }),
                AppOpView::SetCanvasCursor(shifted(cursor, w as int)),
            ),
            None => (ModeView::MakeText(v), AppOpView::Nop),
        },
        Some(KeyCode::Enter) => (
            ModeView::MakeText(MakeTextView { text: v.text.push('\n'), ..v }),
            AppOpView::SetCanvasCursor(
                Coord { x: v.start.x, y: clamp_i16(cursor.y + 1) as i16 },
            ),
        ),
        Some(KeyCode::Backspace) => (
            ModeView::MakeText(
                MakeTextView {
                    text: if v.text.len() == 0 {
                        v.text
                    } else {
                        v.text.drop_last()
                    },
                    ..v
                },
            ),
            AppOpView::SetCanvasCursor(cursor_after_backspace(v.text, cursor, erased)),
        ),
        _ => (ModeView::MakeText(v), AppOpView::Nop),
    }
}

/// What MakeText mode does with the event `e`, while the cursor stands at
/// `cursor`: the step with the display widths as they are.
pub open spec fn make_text_next(v: MakeTextView, e: Event, cursor: Coord) -> (ModeView, AppOpView) {
    make_text_step(v, e, cursor, typed_width(e), erased_width(v.text))
}

/// `x` moved right by `w` columns, within 16 bits.
pub fn add_columns(x: i16, w: usize) -> (r: i16)
    ensures
        r == clamp_i16(x + w),
{
    if w > 65535 {
        32767
    } else {
        saturate_i16(x as i32 + w as i32)
    }
}

/// `x` moved left by `w` columns, within 16 bits.
pub fn sub_columns(x: i16, w: usize) -> (r: i16)
    ensures
        r == clamp_i16(x - w),
{
    if w > 65535 {
        -32768
    } else {
        saturate_i16(x as i32 - w as i32)
    }
}

/// The mode in which a block of text is typed.
pub struct MakeTextMode {
    start_coord: Coord,
    text: Text,
}

impl View for MakeTextMode {
    type V = MakeTextView;

    closed spec fn view(&self) -> MakeTextView {
        MakeTextView { start: self.start_coord, text: self.text@ }
    }
}

impl MakeTextMode {
    pub fn new(canvas_cursor: Coord) -> (r: MakeTextMode)
        ensures
            r@ == MakeTextView::initial(canvas_cursor),
    {
        MakeTextMode { start_coord: canvas_cursor, text: Text::new(String::new()) }
    }

    /// The display width that Backspace takes away.
    fn measure_erased(&self) -> (r: Option<usize>)
        ensures
            r == erased_width(self@.text),
    {
        let mut text = self.text.clone();
        match text.pop() {
            Some(c) => {
                if c == '\n' {
                    text.last_line_width()
                } else {
                    unicode_char_width(c)
                }
            },
            None => None,
        }
    }

    /// The successor of MakeText mode and the operation that it asks for,
    /// where `typed` is the display width of the character that the event
    /// types and `erased` the one that Backspace takes away.
    pub fn step(
        self,
        e: Event,
        cursor: Coord,
        typed: Option<usize>,
        erased: Option<usize>,
    ) -> (r: (Mode, AppOp))
        ensures
            r.0.wf(),
            r.1.wf(),
            (r.0@, r.1@) == make_text_step(self@, e, cursor, typed, erased),
    {
        let mut this = self;
        match key_of(&e) {
            Some(KeyCode::Esc) => {
                let op = if this.text.is_empty() {
                    AppOp::Nop
                } else {
                    AppOp::MakeShape(this.start_coord, Shape::Text(this.text))
                };
                (Mode::Normal(NormalMode::new()), op)
            },
            Some(KeyCode::Char(c)) => {
                match typed {
                    Some(w) => {
                        this.text.push(c);
                        let moved = Coord { x: add_columns(cursor.x, w), y: cursor.y };
                        (Mode::MakeText(this), AppOp::SetCanvasCursor(moved))
                    },
                    None => (Mode::MakeText(this), AppOp::Nop),
                }
            },
            Some(KeyCode::Enter) => {
                this.text.push('\n');
                let moved = Coord { x: this.start_coord.x, y: saturate_i16(cursor.y as i32 + 1) };
                (Mode::MakeText(this), AppOp::SetCanvasCursor(moved))
            },
            Some(KeyCode::Backspace) => {
                let width = match erased {
                    Some(w) => w,
                    None => 0,
                };
                let moved = match this.text.pop() {
                    Some(c) => {
                        if c == '\n' {
                            Coord {
                                x: add_columns(cursor.x, width),
                                y: saturate_i16(cursor.y as i32 - 1),
                            }
                        } else {
                            Coord { x: sub_columns(cursor.x, width), y: cursor.y }
                        }
                    },
                    None => cursor,
                };
                (Mode::MakeText(this), AppOp::SetCanvasCursor(moved))
            },
            _ => (Mode::MakeText(this), AppOp::Nop),
        }
    }

    /// The successor of MakeText mode and the operation that it asks for.
    pub fn next(self, e: Event, canvas_handler: &CanvasHandler) -> (r: (Mode, AppOp))
        ensures
            r.0.wf(),
            r.1.wf(),
            (r.0@, r.1@) == make_text_next(self@, e, canvas_handler.canvas().cursor_pos()),
    {
        let cursor = canvas_handler.cursor_coord();
        let (typed, erased) = match key_of(&e) {
            Some(KeyCode::Char(c)) => (unicode_char_width(c), None),
            Some(KeyCode::Backspace) => (None, self.measure_erased()),
            _ => (None, None),
        };
        self.step(e, cursor, typed, erased)
    }

    /// The text typed so far, at its place on the canvas.
    pub fn additinal_canvas_shapes(&self, _canvas_cursor: Coord) -> (r: Vec<(Coord, Shape)>)
        ensures
            r@.len() == 1,
            r@[0].0 == self@.start,
            r@[0].1@ == ShapeView::Text(self@.text),
            r@[0].1.wf(),
    {
        let mut shapes: Vec<(Coord, Shape)> = Vec::new();
        shapes.push((self.start_coord, Shape::Text(self.text.clone())));
        shapes
    }

    pub fn status_msg(&self) -> (r: String)
        ensures
            r@ == "TEXT [Esc]Complete"@,
    {
        String::from_str("TEXT [Esc]Complete")
    }
}

} // verus!
