use super::normal::NormalMode;
use super::{key_of, movement, movement_of, pressed, Mode, ModeView};
use crate::canvas::handler::{CanvasHandler, ShapeIdSet};
use crate::canvas::ShapeId;
use crate::editor::{AppOp, AppOpView};
use crate::keybind::{ascii_lower, is_upper, to_lower, Event, KeyCode};
use crate::util::id::toggled;
use vstd::prelude::*;
use vstd::string::StringExecFns;

verus! {

/// What Select mode does with the event `e` when the shapes `ids` are
/// selected and `under` is the topmost shape hit at the cursor:
///
/// - Esc returns to Normal mode;
/// - the space bar toggles the shape under the cursor, and returns to Normal
///   mode when no shape is selected after that;
/// - `d` deletes the selected shapes and returns to Normal mode;
/// - `h`, `j`, `k`, `l` move the cursor;
/// - `H`, `J`, `K`, `L` move the selected shapes, and the cursor with them;
/// - anything else changes nothing.
pub open spec fn select_next(ids: Set<nat>, e: Event, under: Option<nat>) -> (ModeView, AppOpView) {
    match pressed(e) {
        Some(KeyCode::Esc) => (ModeView::Normal, AppOpView::Nop),
        Some(KeyCode::Char(c)) => if c == ' ' {
            match under {
                Some(id) => if toggled(ids, id) == Set::<nat>::empty() {
                    (ModeView::Normal, AppOpView::Nop)
                } else {
                    (ModeView::Select(toggled(ids, id)), AppOpView::Nop)
                },
                None => (ModeView::Select(ids), AppOpView::Nop),
            }
        } else if c == 'd' {
            (ModeView::Normal, AppOpView::DeleteShapes(ids))
        } else if movement(c) is Some {
            (ModeView::Select(ids), AppOpView::MoveCanvasCursor(movement(c)->0))
        } else if is_upper(c) && movement(to_lower(c)) is Some {
            (
                ModeView::Select(ids),
                AppOpView::MoveShapesAndCanvasCursor(ids, movement(to_lower(c))->0),
            )
        } else {
            (ModeView::Select(ids), AppOpView::Nop)
        },
        _ => (ModeView::Select(ids), AppOpView::Nop),
    }
}

/// The mode in which shapes are selected, moved and deleted.
pub struct SelectMode {
    selected_shapes: ShapeIdSet,
}

impl View for SelectMode {
    type V = Set<nat>;

    closed spec fn view(&self) -> Set<nat> {
        self.selected_shapes@
    }
}

impl SelectMode {
    /// The selection is a well-formed set.
    pub closed spec fn wf(&self) -> bool {
        self.selected_shapes.wf()
    }

    /// id: initial selected shape
    pub fn new(id: ShapeId) -> (r: SelectMode)
        ensures
            r.wf(),
            r@ == Set::<nat>::empty().insert(id@),
    {
        let mut selected_shapes = ShapeIdSet::new();
        selected_shapes.insert(&id);
        SelectMode { selected_shapes }
    }

    /// The successor of Select mode and the operation that it asks for.
    pub fn next(self, e: Event, canvas_handler: &CanvasHandler) -> (r: (Mode, AppOp))
        requires
            self.wf(),
            canvas_handler.wf(),
        ensures
            r.0.wf(),
            r.1.wf(),
            (r.0@, r.1@) == select_next(self@, e, canvas_handler.under_cursor()),
    {
        let mut this = self;
        match key_of(&e) {
            Some(KeyCode::Esc) => (Mode::Normal(NormalMode::new()), AppOp::Nop),
            Some(KeyCode::Char(c)) => {
                if c == ' ' {
                    match canvas_handler.shape_id_under_the_cursor() {
                        Some(id) => {
                            this.selected_shapes.toggle(&id);
                            if this.selected_shapes.is_empty() {
                                (Mode::Normal(NormalMode::new()), AppOp::Nop)
                            } else {
                                (Mode::Select(this), AppOp::Nop)
                            }
                        },
                        None => (Mode::Select(this), AppOp::Nop),
                    }
                } else if c == 'd' {
                    (Mode::Normal(NormalMode::new()), AppOp::DeleteShapes(this.selected_shapes))
                } else {
                    match movement_of(c) {
                        Some(d) => {
                            return (Mode::Select(this), AppOp::MoveCanvasCursor(d));
                        },
                        None => {},
                    }
                    if 'A' <= c && c <= 'Z' {
                        match movement_of(ascii_lower(c)) {
                            Some(d) => {
                                let shapes = this.selected_shapes.clone();
                                return (
                                    Mode::Select(this),
                                    AppOp::MoveShapesAndCanvasCursor(shapes, d),
                                );
                            },
                            None => {},
                        }
                    }
                    (Mode::Select(this), AppOp::Nop)
                }
            },
            _ => (Mode::Select(this), AppOp::Nop),
        }
    }

    /// The selected shapes.
    pub fn shapes_to_highlight(&self) -> (r: ShapeIdSet)
        requires
            self.wf(),
        ensures
            r.wf(),
            r@ == self@,
    {
        self.selected_shapes.clone()
    }

    pub fn status_msg(&self) -> (r: String)
        ensures
            r@ == "SELECT [ ]toggle select [d]delete [HJKL]move"@,
    {
        String::from_str("SELECT [ ]toggle select [d]delete [HJKL]move")
    }
}

} // verus!
