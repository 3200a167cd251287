use super::normal::NormalMode;
use super::{Mode, ModeView};
use crate::canvas::cursor::{cursor_step, step};
use crate::canvas::handler::CanvasHandler;
use crate::editor::{AppOp, AppOpView};
use crate::keybind::{Event, Key, KeyCode, KeyEvent, KeyModifiers, KeySequence};
use crate::keybind_manager::{buffer_after, emitted, KeyBindManager};
use crate::shape::rect::{Rect, RectView};
use crate::shape::style::Style;
use crate::shape::{Shape, ShapeView};
use crate::util::coord::Coord;
use crate::util::direction::Direction;
use crate::util::size::Size;
use vstd::prelude::*;
use vstd::string::StringExecFns;

verus! {

/// What a key sequence can be bound to in MakeRect mode.
#[derive(PartialEq, Eq, Structural, Copy, Clone, Debug)]
pub enum Op {
    MoveCursor(Direction),
    MakeShape,
    NextStyle,
}

/// The distance between two coordinates and one more: the number of cells
/// from the one to the other, both counted; at most 65535.
pub open spec fn span(a: int, b: int) -> int {
    let d = if a < b {
        b - a
    } else {
        a - b
    };
    if d + 1 > u16::MAX as int {
        u16::MAX as int
    } else {
        d + 1
    }
}

/// The upper left corner of the rectangle with the corners `a` and `b`.
pub open spec fn corner_of(a: Coord, b: Coord) -> Coord {
    Coord {
        x: if a.x < b.x {
            a.x
        } else {
            b.x
        },
        y: if a.y < b.y {
            a.y
        } else {
            b.y
        },
    }
}

/// The size of the rectangle with the corners `a` and `b`.
pub open spec fn size_of(a: Coord, b: Coord) -> Size {
    Size { width: span(a.x as int, b.x as int) as u16, height: span(a.y as int, b.y as int) as u16 }
}

/// A rectangle between two corners has its upper left corner at the smaller
/// coordinates, and is as wide and as high as the corners are apart, both
/// of them counted, as long as that fits 16 bits.
pub proof fn lemma_rect_from_corners(a: Coord, b: Coord)
    requires
        -65534 <= a.x - b.x <= 65534,
        -65534 <= a.y - b.y <= 65534,
    ensures
        corner_of(a, b).x == vstd::math::min(a.x as int, b.x as int),
        corner_of(a, b).y == vstd::math::min(a.y as int, b.y as int),
        size_of(a, b).width == vstd::math::abs(a.x - b.x) + 1,
        size_of(a, b).height == vstd::math::abs(a.y - b.y) + 1,
{
}

/// The upper left corner and the size of the rectangle with the corners
/// `a` and `b`.
pub fn rect_from_corners(a: Coord, b: Coord) -> (r: (Coord, Size))
    ensures
        r.0 == corner_of(a, b),
        r.1 == size_of(a, b),
{
    let x = if a.x < b.x {
        a.x
    } else {
        b.x
    };
    let y = if a.y < b.y {
        a.y
    } else {
        b.y
    };
    (Coord { x, y }, Size { width: extent(a.x, b.x), height: extent(a.y, b.y) })
}

/// The number of cells from `a` to `b`, both counted; at most 65535.
fn extent(a: i16, b: i16) -> (r: u16)
    ensures
        r == span(a as int, b as int),
{
    let d: i32 = if a < b {
        b as i32 - a as i32
    } else {
        a as i32 - b as i32
    };
    if d + 1 > 65535 {
        65535
    } else {
        (d + 1) as u16
    }
}

/// The key sequences that MakeRect mode binds: `h`, `j`, `k`, `l`, `s` and Enter.
pub open spec fn default_table() -> Seq<Seq<Key>> {
    seq![
        seq![(KeyCode::Char('h'), 0u8)],
        seq![(KeyCode::Char('j'), 0u8)],
        seq![(KeyCode::Char('k'), 0u8)],
        seq![(KeyCode::Char('l'), 0u8)],
        seq![(KeyCode::Char('s'), 0u8)],
        seq![(KeyCode::Enter, 0u8)],
    ]
}

/// What the sequences of [`default_table`] are bound to, in the same order:
/// the four movements, the next line style, and the completion of the
/// rectangle.
pub open spec fn default_ops() -> Seq<Op> {
    seq![
        Op::MoveCursor(Direction::Left),
        Op::MoveCursor(Direction::Down),
        Op::MoveCursor(Direction::Up),
        Op::MoveCursor(Direction::Right),
        Op::NextStyle,
        Op::MakeShape,
    ]
}

/// MakeRect mode as the contracts see it: the corner at which the rectangle
/// started, the rectangle as it is shown, the bindings, and the keys typed
/// so far.
pub ghost struct MakeRectView {
    pub start: Coord,
    pub rect: RectView,
    pub table: Seq<Seq<Key>>,
    pub ops: Seq<Op>,
    pub buffer: Seq<Key>,
}

impl MakeRectView {
    /// The mode as entered with the cursor at `cursor`: one cell in single
    /// lines, with the default bindings.
    pub open spec fn initial(cursor: Coord) -> MakeRectView {
        MakeRectView {
            start: cursor,
            rect: RectView { size: Size { width: 1, height: 1 }, line_style: Style::Single },
            table: default_table(),
            ops: default_ops(),
            buffer: Seq::empty(),
        }
    }

    /// The upper left corner of the rectangle while the cursor is at `cursor`.
    pub open spec fn upper_left(self, cursor: Coord) -> Coord {
        corner_of(self.start, cursor)
    }
}

/// What MakeRect mode does with the event `e`, while the cursor stands at
/// `cursor`. A key press goes to the bindings; until a bound sequence is
/// complete nothing but the typed keys changes. The operation of a complete
/// sequence is carried out:
///
/// - a movement moves the cursor, and the rectangle spans from its start to
///   where the cursor goes;
/// - the next style changes the border;
/// - the completion returns to Normal mode and places the rectangle.
pub open spec fn make_rect_next(v: MakeRectView, e: Event, cursor: Coord) -> (ModeView, AppOpView) {
    match e {
        Event::Other => (ModeView::MakeRect(v), AppOpView::Nop),
        Event::Key(key) => {
            let kept = MakeRectView { buffer: buffer_after(v.table, v.buffer, key@), ..v };
            match emitted(v.table, v.buffer, key@) {
                None => (ModeView::MakeRect(kept), AppOpView::Nop),
                Some(i) => match v.ops[i] {
                    Op::MoveCursor(d) => (
                        ModeView::MakeRect(
                            MakeRectView {
                                rect: RectView {
                                    size: size_of(v.start, cursor_step(cursor, d)),
                                    line_style: v.rect.line_style,
                                },
                                ..kept
                            },
                        ),
                        AppOpView::MoveCanvasCursor(d),
                    ),
                    Op::NextStyle => (
                        ModeView::MakeRect(
                            MakeRectView {
                                rect: RectView {
                                    size: v.rect.size,
                                    line_style: v.rect.line_style.spec_next(),
                                },
                                ..kept
                            },
                        ),
                        AppOpView::Nop,
                    ),
                    Op::MakeShape => (
                        ModeView::Normal,
                        AppOpView::MakeShape(v.upper_left(cursor), ShapeView::Rect(v.rect)),
                    ),
                },
            }
        },
    }
}

/// The mode in which a rectangle is spanned between the place where the
/// mode was entered and the cursor.
pub struct MakeRectMode {
    start_coord: Coord,
    rect: Rect,
    kb_mbr: KeyBindManager<Op>,
}

impl View for MakeRectMode {
    type V = MakeRectView;

    closed spec fn view(&self) -> MakeRectView {
        MakeRectView {
            start: self.start_coord,
            rect: self.rect@,
            table: self.kb_mbr.table(),
            ops: self.kb_mbr.ops(),
            buffer: self.kb_mbr.buffer(),
        }
    }
}

/// A binding of the single key `code`, without modifiers.
fn bind(code: KeyCode, op: Op) -> (r: (KeySequence, Op))
    requires
        code matches KeyCode::Char(c) ==> !crate::keybind::is_upper(c),
    ensures
        r.0@ == seq![(code, 0u8)],
        r.1 == op,
{
    let mut keys: Vec<KeyEvent> = Vec::new();
    keys.push(KeyEvent::new(code, KeyModifiers::empty()));
    let sequence = KeySequence::new(keys);
    proof {
        assert(0u8 & crate::keybind::SHIFT == 0) by (bit_vector);
        assert(sequence@ =~= seq![(code, 0u8)]);
    }
    (sequence, op)
}

impl MakeRectMode {
    /// The bindings and their operations go together.
    pub closed spec fn wf(&self) -> bool {
        self.kb_mbr.table().len() == self.kb_mbr.ops().len()
    }

    pub fn new(canvas_cursor: Coord) -> (r: MakeRectMode)
        ensures
            r.wf(),
            r@ == MakeRectView::initial(canvas_cursor),
    {
        let mut bindings: Vec<(KeySequence, Op)> = Vec::new();
        bindings.push(bind(KeyCode::Char('h'), Op::MoveCursor(Direction::Left)));
        bindings.push(bind(KeyCode::Char('j'), Op::MoveCursor(Direction::Down)));
        bindings.push(bind(KeyCode::Char('k'), Op::MoveCursor(Direction::Up)));
        bindings.push(bind(KeyCode::Char('l'), Op::MoveCursor(Direction::Right)));
        bindings.push(bind(KeyCode::Char('s'), Op::NextStyle));
        bindings.push(bind(KeyCode::Enter, Op::MakeShape));
        let kb_mbr = KeyBindManager::with_bindings(bindings);
        proof {
            assert(kb_mbr.table() =~= default_table());
            assert(kb_mbr.ops() =~= default_ops());
        }
        MakeRectMode {
            start_coord: canvas_cursor,
            rect: Rect::new(Size::new(1, 1), Style::Single),
            kb_mbr,
        }
    }

    /// A mode with bindings of its own, such as a configuration gives.
    pub fn with_bindings(canvas_cursor: Coord, bindings: Vec<(KeySequence, Op)>) -> (r: MakeRectMode)
        ensures
            r.wf(),
            r@.start == canvas_cursor,
            r@.rect == (RectView { size: Size { width: 1, height: 1 }, line_style: Style::Single }),
            r@.buffer == Seq::<Key>::empty(),
            r@.table == Seq::new(bindings@.len(), |i: int| bindings@[i].0@),
            r@.ops == Seq::new(bindings@.len(), |i: int| bindings@[i].1),
    {
        MakeRectMode {
            start_coord: canvas_cursor,
            rect: Rect::new(Size::new(1, 1), Style::Single),
            kb_mbr: KeyBindManager::with_bindings(bindings),
        }
    }

    /// The successor of MakeRect mode and the operation that it asks for.
    pub fn next(self, e: Event, canvas_handler: &CanvasHandler) -> (r: (Mode, AppOp))
        requires
            self.wf(),
        ensures
            r.0.wf(),
            r.1.wf(),
            (r.0@, r.1@) == make_rect_next(self@, e, canvas_handler.canvas().cursor_pos()),
    {
        let mut this = self;
        let cursor = canvas_handler.cursor_coord();
        let ghost before = this@;
        proof {
            if let Event::Key(key) = e {
                crate::keybind_manager::lemma_bound_index(
                    before.table,
                    before.buffer.push(key@),
                    before.table.len() as int,
                );
            }
        }
        let op = match this.kb_mbr.process_event(e) {
            Some(op) => op,
            None => {
                return (Mode::MakeRect(this), AppOp::Nop);
            },
        };
        match op {
            Op::MoveCursor(d) => {
                let (_, size) = rect_from_corners(this.start_coord, step(cursor, d));
                this.rect.set_size(size);
                (Mode::MakeRect(this), AppOp::MoveCanvasCursor(d))
            },
            Op::NextStyle => {
                this.rect.set_next_line_style();
                (Mode::MakeRect(this), AppOp::Nop)
            },
            Op::MakeShape => {
                let (upper_left, _) = rect_from_corners(this.start_coord, cursor);
                (Mode::Normal(NormalMode::new()), AppOp::MakeShape(upper_left, Shape::Rect(this.rect)))
            },
        }
    }

    /// The rectangle as it is now, at its place on the canvas.
    pub fn additinal_canvas_shapes(&self, canvas_cursor: Coord) -> (r: Vec<(Coord, Shape)>)
        ensures
            r@.len() == 1,
            r@[0].0 == self@.upper_left(canvas_cursor),
            r@[0].1@ == ShapeView::Rect(self@.rect),
            r@[0].1.wf(),
    {
        let (upper_left, _) = rect_from_corners(self.start_coord, canvas_cursor);
        let mut shapes: Vec<(Coord, Shape)> = Vec::new();
        shapes.push((upper_left, Shape::Rect(self.rect)));
        shapes
    }

    pub fn status_msg(&self) -> (r: String)
        ensures
            r@ == "RECT [↵]Complete, [s]Change Line Style"@,
    {
        String::from_str("RECT [↵]Complete, [s]Change Line Style")
    }
}

} // verus!
