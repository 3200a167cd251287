use super::command::CmdMode;
use super::make_path::{MakePathMode, MakePathView};
use super::make_rect::{MakeRectMode, MakeRectView};
use super::make_text::{MakeTextMode, MakeTextView};
use super::select::SelectMode;
use super::{key_of, movement, movement_of, pressed, Mode, ModeView};
use crate::canvas::handler::CanvasHandler;
use crate::editor::{AppOp, AppOpView};
use crate::keybind::{Event, KeyCode};
use crate::util::coord::Coord;
use vstd::prelude::*;
use vstd::string::StringExecFns;

verus! {

/// What Normal mode does with the event `e`, while the cursor stands at
/// `cursor` and `under` is the topmost shape hit there:
///
/// - `h`, `j`, `k`, `l` move the cursor;
/// - `:` enters Command mode, `r` MakeRect, `p` MakePath, `t` MakeText, each
///   starting at the cursor;
/// - the space bar enters Select mode with the shape under the cursor, where
///   there is one;
/// - anything else changes nothing.
pub open spec fn normal_next(e: Event, cursor: Coord, under: Option<nat>) -> (ModeView, AppOpView) {
    match pressed(e) {
        Some(KeyCode::Char(c)) => if movement(c) is Some {
            (ModeView::Normal, AppOpView::MoveCanvasCursor(movement(c)->0))
        } else if c == ':' {
            (ModeView::Command(seq![':']), AppOpView::Nop)
        } else if c == 'r' {
            (ModeView::MakeRect(MakeRectView::initial(cursor)), AppOpView::Nop)
        } else if c == 'p' {
            (ModeView::MakePath(MakePathView::initial(cursor)), AppOpView::Nop)
        } else if c == 't' {
            (ModeView::MakeText(MakeTextView::initial(cursor)), AppOpView::Nop)
        } else if c == ' ' {
            match under {
                Some(id) => (ModeView::Select(Set::<nat>::empty().insert(id)), AppOpView::Nop),
                None => (ModeView::Normal, AppOpView::Nop),
            }
        } else {
            (ModeView::Normal, AppOpView::Nop)
        },
        _ => (ModeView::Normal, AppOpView::Nop),
    }
}

/// The mode in which the cursor moves freely and from which the other
/// modes are entered.
pub struct NormalMode;

impl NormalMode {
    pub fn new() -> (r: NormalMode) {
        NormalMode
    }

    /// The successor of Normal mode and the operation that it asks for.
    pub fn next(self, e: Event, canvas_handler: &CanvasHandler) -> (r: (Mode, AppOp))
        requires
            canvas_handler.wf(),
        ensures
            r.0.wf(),
            r.1.wf(),
            (r.0@, r.1@) == normal_next(
                e,
                canvas_handler.canvas().cursor_pos(),
                canvas_handler.under_cursor(),
            ),
    {
        let cursor = canvas_handler.cursor_coord();
        match key_of(&e) {
            Some(KeyCode::Char(c)) => {
                match movement_of(c) {
                    Some(d) => {
                        return (Mode::Normal(self), AppOp::MoveCanvasCursor(d));
                    },
                    None => {},
                }
                if c == ':' {
                    (Mode::Command(CmdMode::new()), AppOp::Nop)
                } else if c == 'r' {
                    (Mode::MakeRect(MakeRectMode::new(cursor)), AppOp::Nop)
                } else if c == 'p' {
                    (Mode::MakePath(MakePathMode::new(cursor)), AppOp::Nop)
                } else if c == 't' {
                    (Mode::MakeText(MakeTextMode::new(cursor)), AppOp::Nop)
                } else if c == ' ' {
                    match canvas_handler.shape_id_under_the_cursor() {
                        Some(id) => (Mode::Select(SelectMode::new(id)), AppOp::Nop),
                        None => (Mode::Normal(self), AppOp::Nop),
                    }
                } else {
                    (Mode::Normal(self), AppOp::Nop)
                }
            },
            _ => (Mode::Normal(self), AppOp::Nop),
        }
    }

    pub fn status_msg(&self) -> (r: String)
        ensures
            r@ == "NORM [:]cmd [r]rect [t]text [p]path [ ]select [hjkl]move cursor"@,
    {
        String::from_str("NORM [:]cmd [r]rect [t]text [p]path [ ]select [hjkl]move cursor")
    }
}

impl Default for NormalMode {
    fn default() -> (r: NormalMode) {
        NormalMode
    }
}

} // verus!
