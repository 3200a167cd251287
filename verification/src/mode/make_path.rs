use super::normal::NormalMode;
use super::{key_of, movement, movement_of, pressed, Mode, ModeView};
use crate::canvas::handler::CanvasHandler;
use crate::editor::{AppOp, AppOpView};
use crate::keybind::{Event, KeyCode};
use crate::shape::path::{next_arrow_state, steps_fit, Path, PathView};
use crate::shape::style::Style;
use crate::shape::{Shape, ShapeView};
use crate::util::coord::Coord;
use vstd::prelude::*;
use vstd::string::StringExecFns;

verus! {

/// MakePath mode as the contracts see it: where the path starts, and the
/// path built so far.
pub ghost struct MakePathView {
    pub start: Coord,
    pub path: PathView,
}

impl MakePathView {
    /// The mode as entered with the cursor at `cursor`: an empty path in
    /// single lines, without arrows.
    pub open spec fn initial(cursor: Coord) -> MakePathView {
        MakePathView {
            start: cursor,
            path: PathView {
                steps: Seq::empty(),
                line_style: Style::Single,
                has_start_arrow: false,
                has_end_arrow: false,
            },
        }
    }

    /// The canvas position of the upper left corner of the path.
    pub open spec fn upper_left(self) -> Coord {
        self.start.spec_plus(self.path.start_to_upper_left())
    }
}

/// What MakePath mode does with the event `e`:
///
/// - `h`, `j`, `k`, `l` add a step to the path and move the cursor along;
///   a step that would take the path beyond its limits is left out;
/// - Backspace takes the last step back, and the cursor with it;
/// - `s` changes the line style and `a` the arrows;
/// - Enter returns to Normal mode, and places the path unless it is empty;
/// - anything else changes nothing.
pub open spec fn make_path_next(v: MakePathView, e: Event) -> (ModeView, AppOpView) {
    match pressed(e) {
        Some(KeyCode::Enter) => (
            ModeView::Normal,
            if v.path.steps.len() == 0 {
                AppOpView::Nop
            } else {
                AppOpView::MakeShape(v.upper_left(), ShapeView::Path(v.path))
            },
        ),
        Some(KeyCode::Backspace) => if v.path.steps.len() == 0 {
            (ModeView::MakePath(v), AppOpView::Nop)
        } else {
            (
                ModeView::MakePath(MakePathView { path: v.path.pop(), ..v }),
                AppOpView::MoveCanvasCursor(v.path.steps.last().spec_opposite()),
            )
        },
        Some(KeyCode::Char(c)) => if movement(c) is Some {
            if steps_fit(v.path.steps.push(movement(c)->0)) {
                (
                    ModeView::MakePath(MakePathView { path: v.path.push(movement(c)->0), ..v }),
                    AppOpView::MoveCanvasCursor(movement(c)->0),
                )
            } else {
                (ModeView::MakePath(v), AppOpView::Nop)
            }
        } else if c == 's' {
            (
                ModeView::MakePath(
                    MakePathView {
                        path: PathView { line_style: v.path.line_style.spec_next(), ..v.path },
                        ..v
                    },
                ),
                AppOpView::Nop,
            )
        } else if c == 'a' {
            (
                ModeView::MakePath(
                    MakePathView {
                        path: PathView {
                            has_start_arrow: next_arrow_state(
                                v.path.has_start_arrow,
                                v.path.has_end_arrow,
                            ).0,
                            has_end_arrow: next_arrow_state(
                                v.path.has_start_arrow,
                                v.path.has_end_arrow,
                            ).1,
                            ..v.path
                        },
                        ..v
                    },
                ),
                AppOpView::Nop,
            )
        } else {
            (ModeView::MakePath(v), AppOpView::Nop)
        },
        _ => (ModeView::MakePath(v), AppOpView::Nop),
    }
}

/// The mode in which a path is drawn step by step.
pub struct MakePathMode {
    start_coord: Coord,
    path: Path,
}

impl View for MakePathMode {
    type V = MakePathView;

    closed spec fn view(&self) -> MakePathView {
        MakePathView { start: self.start_coord, path: self.path@ }
    }
}

impl MakePathMode {
    /// The path built so far is well formed.
    pub closed spec fn wf(&self) -> bool {
        self.path.wf()
    }

    pub fn new(canvas_cursor: Coord) -> (r: MakePathMode)
        ensures
            r.wf(),
            r@ == MakePathView::initial(canvas_cursor),
    {
        let steps: Vec<crate::util::direction::Direction> = Vec::new();
        assert(steps@ =~= Seq::<crate::util::direction::Direction>::empty());
        MakePathMode { start_coord: canvas_cursor, path: Path::new(steps, false, false, Style::Single) }
    }

    /// The successor of MakePath mode and the operation that it asks for.
    pub fn next(self, e: Event, canvas_handler: &CanvasHandler) -> (r: (Mode, AppOp))
        requires
            self.wf(),
        ensures
            r.0.wf(),
            r.1.wf(),
            (r.0@, r.1@) == make_path_next(self@, e),
    {
        let mut this = self;
        match key_of(&e) {
            Some(KeyCode::Enter) => {
                let op = if this.path.is_empty() {
                    AppOp::Nop
                } else {
                    let upper_left = this.start_coord.plus(this.path.start_to_upper_left());
                    AppOp::MakeShape(upper_left, Shape::Path(this.path))
                };
                (Mode::Normal(NormalMode::new()), op)
            },
            Some(KeyCode::Backspace) => {
                match this.path.pop_path() {
                    Some(dir) => (Mode::MakePath(this), AppOp::MoveCanvasCursor(dir.opposite())),
                    None => (Mode::MakePath(this), AppOp::Nop),
                }
            },
            Some(KeyCode::Char(c)) => {
                match movement_of(c) {
                    Some(d) => {
                        if this.path.can_push(d) {
                            this.path.push_path(d);
                            return (Mode::MakePath(this), AppOp::MoveCanvasCursor(d));
                        } else {
                            return (Mode::MakePath(this), AppOp::Nop);
                        }
                    },
                    None => {},
                }
                if c == 's' {
                    this.path.set_next_line_style();
                    (Mode::MakePath(this), AppOp::Nop)
                } else if c == 'a' {
                    this.path.set_next_arrow_state();
                    (Mode::MakePath(this), AppOp::Nop)
                } else {
                    (Mode::MakePath(this), AppOp::Nop)
                }
            },
            _ => (Mode::MakePath(this), AppOp::Nop),
        }
    }

    /// The path built so far, at its place on the canvas.
    pub fn additinal_canvas_shapes(&self, _canvas_cursor: Coord) -> (r: Vec<(Coord, Shape)>)
        requires
            self.wf(),
        ensures
            r@.len() == 1,
            r@[0].0 == self@.upper_left(),
            r@[0].1@ == ShapeView::Path(self@.path),
            r@[0].1.wf(),
    {
        let start = self.start_coord.plus(self.path.start_to_upper_left());
        let mut shapes: Vec<(Coord, Shape)> = Vec::new();
        shapes.push((start, Shape::Path(self.path.clone())));
        shapes
    }

    pub fn status_msg(&self) -> (r: String)
        ensures
            r@ == "LINE [Enter]Complete, [s]Change Line Style"@,
    {
        String::from_str("LINE [Enter]Complete, [s]Change Line Style")
    }
}

} // verus!
