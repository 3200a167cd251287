//! The modes of the editor. Exactly one mode is active; an input event
//! turns it into its successor and yields an operation on the canvas.

pub mod command;
pub mod dummy;
pub mod make_path;
pub mod make_rect;
pub mod make_text;
pub mod normal;
pub mod select;

use crate::canvas::handler::{CanvasHandler, ShapeIdSet};
use crate::editor::{AppOp, AppOpView};
use crate::keybind::{Event, KeyCode};
use crate::shape::{Shape, ShapeView};
use crate::util::coord::Coord;
use crate::util::direction::Direction;
use command::{command_next, CmdMode};
use dummy::DummyMode;
use make_path::{make_path_next, MakePathMode, MakePathView};
use make_rect::{make_rect_next, MakeRectMode, MakeRectView};
use make_text::{make_text_next, MakeTextMode, MakeTextView};
use normal::{normal_next, NormalMode};
use select::{select_next, SelectMode};
use vstd::prelude::*;

verus! {

/// The key of an event, or `None` for an event that is no key press.
pub open spec fn pressed(e: Event) -> Option<KeyCode> {
    match e {
        Event::Key(k) => Some(k@.0),
        Event::Other => None,
    }
}

/// The direction that a movement key stands for: `h`, `j`, `k`, `l` as in vi.
pub open spec fn movement(c: char) -> Option<Direction> {
    if c == 'h' {
        Some(Direction::Left)
    } else if c == 'j' {
        Some(Direction::Down)
    } else if c == 'k' {
        Some(Direction::Up)
    } else if c == 'l' {
        Some(Direction::Right)
    } else {
        None
    }
}

/// The direction that a movement key stands for.
pub fn movement_of(c: char) -> (r: Option<Direction>)
    ensures
        r == movement(c),
{
    if c == 'h' {
        Some(Direction::Left)
    } else if c == 'j' {
        Some(Direction::Down)
    } else if c == 'k' {
        Some(Direction::Up)
    } else if c == 'l' {
        Some(Direction::Right)
    } else {
        None
    }
}

/// The key of an event, or `None` for an event that is no key press.
pub fn key_of(e: &Event) -> (r: Option<KeyCode>)
    ensures
        r == pressed(*e),
{
    match e {
        Event::Key(k) => Some(k.code()),
        Event::Other => None,
    }
}

/// A mode as the contracts see it.
pub ghost enum ModeView {
    Normal,
    Command(Seq<char>),
    Select(Set<nat>),
    MakeRect(MakeRectView),
    MakePath(MakePathView),
    MakeText(MakeTextView),
    Dummy,
}

/// The active mode.
pub enum Mode {
    Normal(NormalMode),
    Command(CmdMode),
    Select(SelectMode),
    MakeRect(MakeRectMode),
    MakePath(MakePathMode),
    MakeText(MakeTextMode),
    /// Stands in while the active mode is taken out to compute its successor.
    Dummy(DummyMode),
}

impl View for Mode {
    type V = ModeView;

    open spec fn view(&self) -> ModeView {
        match self {
            Mode::Normal(_) => ModeView::Normal,
            Mode::Command(m) => ModeView::Command(m@),
            Mode::Select(m) => ModeView::Select(m@),
            Mode::MakeRect(m) => ModeView::MakeRect(m@),
            Mode::MakePath(m) => ModeView::MakePath(m@),
            Mode::MakeText(m) => ModeView::MakeText(m@),
            Mode::Dummy(_) => ModeView::Dummy,
        }
    }
}

/// The successor of the mode `m` and the operation that it asks for, when
/// the event `e` comes in while the cursor stands at `cursor` and `under` is
/// the topmost shape hit there.
pub open spec fn mode_next(m: ModeView, e: Event, cursor: Coord, under: Option<nat>) -> (
    ModeView,
    AppOpView,
) {
    match m {
        ModeView::Normal => normal_next(e, cursor, under),
        ModeView::Command(cmd) => command_next(cmd, e),
        ModeView::Select(ids) => select_next(ids, e, under),
        ModeView::MakeRect(v) => make_rect_next(v, e, cursor),
        ModeView::MakePath(v) => make_path_next(v, e),
        ModeView::MakeText(v) => make_text_next(v, e, cursor),
        ModeView::Dummy => (ModeView::Dummy, AppOpView::Nop),
    }
}

impl ModeView {
    /// The shapes that the mode adds to the frame, while the cursor stands at
    /// `cursor`: the shape that it is building, where it builds one.
    pub open spec fn extras(self, cursor: Coord) -> Seq<(Coord, ShapeView)> {
        match self {
            ModeView::MakeRect(v) => seq![(v.upper_left(cursor), ShapeView::Rect(v.rect))],
            ModeView::MakePath(v) => seq![(v.upper_left(), ShapeView::Path(v.path))],
            ModeView::MakeText(v) => seq![(v.start, ShapeView::Text(v.text))],
            _ => Seq::empty(),
        }
    }

    /// The shapes that the mode highlights: the selected ones.
    pub open spec fn marked(self) -> Set<nat> {
        match self {
            ModeView::Select(ids) => ids,
            _ => Set::empty(),
        }
    }

    /// The line that the mode shows below the canvas.
    pub open spec fn status(self) -> Seq<char> {
        match self {
            ModeView::Normal => "NORM [:]cmd [r]rect [t]text [p]path [ ]select [hjkl]move cursor"@,
            ModeView::Command(cmd) => cmd,
            ModeView::Select(_) => "SELECT [ ]toggle select [d]delete [HJKL]move"@,
            ModeView::MakeRect(_) => "RECT [↵]Complete, [s]Change Line Style"@,
            ModeView::MakePath(_) => "LINE [Enter]Complete, [s]Change Line Style"@,
            ModeView::MakeText(_) => "TEXT [Esc]Complete"@,
            ModeView::Dummy => Seq::empty(),
        }
    }
}

/// The additional shapes as the contracts see them.
pub open spec fn extras_view(shapes: Seq<(Coord, Shape)>) -> Seq<(Coord, ShapeView)> {
    Seq::new(shapes.len(), |k: int| (shapes[k].0, shapes[k].1@))
}

impl Mode {
    /// The mode is a real one, and what it holds is well formed.
    pub open spec fn wf(&self) -> bool {
        match self {
            Mode::Normal(_) => true,
            Mode::Command(_) => true,
            Mode::Select(m) => m.wf(),
            Mode::MakeRect(m) => m.wf(),
            Mode::MakePath(m) => m.wf(),
            Mode::MakeText(_) => true,
            Mode::Dummy(_) => false,
        }
    }

    /// The successor of the mode and the operation that it asks for.
    pub fn next(self, e: Event, canvas_handler: &CanvasHandler) -> (r: (Mode, AppOp))
        requires
            self.wf(),
            canvas_handler.wf(),
        ensures
            r.0.wf(),
            r.1.wf(),
            (r.0@, r.1@) == mode_next(
                self@,
                e,
                canvas_handler.canvas().cursor_pos(),
                canvas_handler.under_cursor(),
            ),
    {
        match self {
            Mode::Normal(m) => m.next(e, canvas_handler),
            Mode::Command(m) => m.next(e, canvas_handler),
            Mode::Select(m) => m.next(e, canvas_handler),
            Mode::MakeRect(m) => m.next(e, canvas_handler),
            Mode::MakePath(m) => m.next(e, canvas_handler),
            Mode::MakeText(m) => m.next(e, canvas_handler),
            Mode::Dummy(m) => (Mode::Dummy(m), AppOp::Nop),
        }
    }

    /// Additional shapes to render on the canvas: the shape that the mode
    /// is building, where it builds one.
    pub fn additinal_canvas_shapes(&self, canvas_cursor: Coord) -> (r: Vec<(Coord, Shape)>)
        requires
            self.wf(),
        ensures
            forall|k: int| 0 <= k < r@.len() ==> (#[trigger] r@[k]).1.wf(),
            extras_view(r@) == self@.extras(canvas_cursor),
    {
        let shapes = match self {
            Mode::MakeRect(m) => m.additinal_canvas_shapes(canvas_cursor),
            Mode::MakePath(m) => m.additinal_canvas_shapes(canvas_cursor),
            Mode::MakeText(m) => m.additinal_canvas_shapes(canvas_cursor),
            _ => Vec::new(),
        };
        assert(extras_view(shapes@) =~= self@.extras(canvas_cursor));
        shapes
    }

    /// Shapes to highlight: the selected ones.
    pub fn shapes_to_highlight(&self) -> (r: ShapeIdSet)
        requires
            self.wf(),
        ensures
            r.wf(),
            r@ == self@.marked(),
    {
        match self {
            Mode::Select(m) => m.shapes_to_highlight(),
            _ => ShapeIdSet::new(),
        }
    }

    /// Message to show in command line.
    pub fn status_msg(&self) -> (r: String)
        ensures
            r@ == self@.status(),
    {
        match self {
            Mode::Normal(m) => m.status_msg(),
            Mode::Command(m) => m.status_msg(),
            Mode::Select(m) => m.status_msg(),
            Mode::MakeRect(m) => m.status_msg(),
            Mode::MakePath(m) => m.status_msg(),
            Mode::MakeText(m) => m.status_msg(),
            Mode::Dummy(m) => m.status_msg(),
        }
    }
}

/// Holds the active mode and replaces it on every event.
pub struct ModeHandler(Mode);

impl ModeHandler {
    /// The active mode.
    pub closed spec fn mode(&self) -> ModeView {
        self.0@
    }

    /// The active mode is well formed.
    pub closed spec fn wf(&self) -> bool {
        self.0.wf()
    }

    /// Starts in Normal mode.
    pub fn new() -> (r: ModeHandler)
        ensures
            r.wf(),
            r.mode() == ModeView::Normal,
    {
        ModeHandler(Mode::Normal(NormalMode::new()))
    }

    /// Hands the event to the active mode, keeps its successor and returns
    /// the operation that it asks for.
    pub fn process_event(&mut self, event: Event, canvas_handler: &CanvasHandler) -> (r: AppOp)
        requires
            old(self).wf(),
            canvas_handler.wf(),
        ensures
            final(self).wf(),
            r.wf(),
            (final(self).mode(), r@) == mode_next(
                old(self).mode(),
                event,
                canvas_handler.canvas().cursor_pos(),
                canvas_handler.under_cursor(),
            ),
    {
        let mut current = Mode::Dummy(DummyMode::new());
        core::mem::swap(&mut self.0, &mut current);
        let (next_mode, app_op) = current.next(event, canvas_handler);
        self.0 = next_mode;
        app_op
    }

    pub fn get(&self) -> (r: &Mode)
        ensures
            r@ == self.mode(),
            self.wf() ==> r.wf(),
    {
        &self.0
    }
}

impl Default for ModeHandler {
    fn default() -> (r: ModeHandler)
        ensures
            r.wf(),
            r.mode() == ModeView::Normal,
    {
        ModeHandler::new()
    }
}

} // verus!
