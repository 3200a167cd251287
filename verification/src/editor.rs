//! The editor: the canvas and the active mode, and how an input event
//! changes them.

use crate::canvas::cursor::cursor_step;
use crate::canvas::handler::{
    cursor_cell, moved_all, next_offset, paints_inside, paints_match, without_all, CanvasHandler,
    Scene, ShapeIdSet,
};
use crate::canvas::Placed;
use crate::keybind::Event;
use crate::mode::make_rect::{corner_of, size_of};
use crate::mode::{mode_next, Mode, ModeHandler, ModeView};
use crate::shape::{Shape, ShapeView};
use crate::util::coord::{clamp_i16, Coord};
use crate::util::direction::Direction;
use crate::util::size::Size;
use vstd::prelude::*;

verus! {

/// What a mode asks the editor to do to the canvas.
pub enum AppOp {
    MakeShape(Coord, Shape),
    MoveCanvasCursor(Direction),
    SetCanvasCursor(Coord),
    DeleteShapes(ShapeIdSet),
    MoveShapesAndCanvasCursor(ShapeIdSet, Direction),
    QuitApp,
    Nop,
}

/// What a mode asks for, as the contracts see it.
pub ghost enum AppOpView {
    MakeShape(Coord, ShapeView),
    MoveCanvasCursor(Direction),
    SetCanvasCursor(Coord),
    DeleteShapes(Set<nat>),
    MoveShapesAndCanvasCursor(Set<nat>, Direction),
    QuitApp,
    Nop,
}

impl View for AppOp {
    type V = AppOpView;

    open spec fn view(&self) -> AppOpView {
        match self {
            AppOp::MakeShape(c, s) => AppOpView::MakeShape(*c, s@),
            AppOp::MoveCanvasCursor(d) => AppOpView::MoveCanvasCursor(*d),
            AppOp::SetCanvasCursor(c) => AppOpView::SetCanvasCursor(*c),
            AppOp::DeleteShapes(ids) => AppOpView::DeleteShapes(ids@),
            AppOp::MoveShapesAndCanvasCursor(ids, d) => AppOpView::MoveShapesAndCanvasCursor(
                ids@,
                *d,
            ),
            AppOp::QuitApp => AppOpView::QuitApp,
            AppOp::Nop => AppOpView::Nop,
        }
    }
}

impl AppOp {
    /// The shape and the identifier sets that the operation carries are
    /// well formed.
    pub open spec fn wf(&self) -> bool {
        match self {
            AppOp::MakeShape(_, s) => s.wf(),
            AppOp::DeleteShapes(ids) => ids.wf(),
            AppOp::MoveShapesAndCanvasCursor(ids, _) => ids.wf(),
            _ => true,
        }
    }
}

/// The shapes of a canvas after the operation `op`, where the next
/// identifier is `next_id`.
pub open spec fn entries_after(entries: Seq<Placed>, next_id: nat, op: AppOpView) -> Seq<Placed> {
    match op {
        AppOpView::MakeShape(c, s) => if next_id < usize::MAX {
            entries.push((next_id, c, s))
        } else {
            entries
        },
        AppOpView::DeleteShapes(ids) => without_all(entries, ids),
        AppOpView::MoveShapesAndCanvasCursor(ids, d) => moved_all(entries, ids, d),
        _ => entries,
    }
}

/// The next identifier of a canvas after the operation `op`.
pub open spec fn next_id_after(next_id: nat, op: AppOpView) -> nat {
    if op is MakeShape && next_id < usize::MAX {
        next_id + 1
    } else {
        next_id
    }
}

/// The cursor of a canvas after the operation `op`.
pub open spec fn cursor_after(cursor: Coord, op: AppOpView) -> Coord {
    match op {
        AppOpView::MoveCanvasCursor(d) => cursor_step(cursor, d),
        AppOpView::SetCanvasCursor(c) => c,
        AppOpView::MoveShapesAndCanvasCursor(_, d) => cursor_step(cursor, d),
        _ => cursor,
    }
}

/// The rectangle that MakeRect mode shows spans from where the mode was
/// entered to the cursor.
pub open spec fn preview_follows_cursor(m: ModeView, cursor: Coord) -> bool {
    m matches ModeView::MakeRect(v) ==> v.rect.size == size_of(v.start, cursor)
}

/// Whatever events come in, the rectangle that MakeRect mode shows keeps
/// spanning from where the mode was entered to the cursor: so the rectangle
/// that is placed in the end has these two as its corners.
pub proof fn lemma_preview_follows_cursor(m: ModeView, e: Event, cursor: Coord, under: Option<nat>)
    requires
        preview_follows_cursor(m, cursor),
    ensures
        preview_follows_cursor(
            mode_next(m, e, cursor, under).0,
            cursor_after(cursor, mode_next(m, e, cursor, under).1),
        ),
        m matches ModeView::MakeRect(v) ==> (mode_next(m, e, cursor, under).1 matches AppOpView::MakeShape(
            at,
            shape,
        ) ==> at == corner_of(v.start, cursor) && shape.size() == size_of(v.start, cursor)),
{
}

/// Does to the canvas what `op` asks for, and tells whether the editor is
/// to quit. A shape is not added once the identifiers are used up.
pub fn apply(canvas: &mut CanvasHandler, op: AppOp) -> (quit: bool)
    requires
        old(canvas).wf(),
        op.wf(),
    ensures
        final(canvas).wf(),
        final(canvas).same_frame(old(canvas)),
        quit == (op@ is QuitApp),
        final(canvas).canvas().entries() == entries_after(
            old(canvas).canvas().entries(),
            old(canvas).canvas().next_id(),
            op@,
        ),
        final(canvas).canvas().cursor_pos() == cursor_after(old(canvas).canvas().cursor_pos(), op@),
        final(canvas).canvas().next_id() == next_id_after(old(canvas).canvas().next_id(), op@),
{
    match op {
        AppOp::QuitApp => true,
        AppOp::MakeShape(c, s) => {
            if canvas.can_add_shape() {
                canvas.add_shape(c, s);
            }
            false
        },
        AppOp::MoveCanvasCursor(d) => {
            canvas.move_cursor(d);
            false
        },
        AppOp::SetCanvasCursor(c) => {
            canvas.set_cursor(c);
            false
        },
        AppOp::DeleteShapes(ids) => {
            canvas.delte_shapes(&ids);
            false
        },
        AppOp::MoveShapesAndCanvasCursor(ids, dir) => {
            canvas.move_cursor(dir);
            canvas.move_shapes(&ids, dir);
            false
        },
        AppOp::Nop => false,
    }
}

/// The application: a canvas and the active mode.
pub struct App {
    canvas_handler: CanvasHandler,
    mode: ModeHandler,
}

/// What one frame shows: the canvas and the line of the mode below it.
pub struct Frame {
    pub scene: Scene,
    pub status: String,
}

impl App {
    /// The canvas and what is shown of it.
    pub closed spec fn canvas(&self) -> CanvasHandler {
        self.canvas_handler
    }

    /// The active mode.
    pub closed spec fn mode(&self) -> ModeView {
        self.mode.mode()
    }

    /// Canvas and mode are well formed.
    pub closed spec fn wf(&self) -> bool {
        self.canvas_handler.wf() && self.mode.wf()
    }

    /// An empty canvas in Normal mode, with the cursor at the origin.
    pub fn new() -> (r: App)
        ensures
            r.wf(),
            r.mode() == ModeView::Normal,
            r.canvas().canvas().entries() == Seq::<Placed>::empty(),
            r.canvas().canvas().cursor_pos() == (Coord { x: 0, y: 0 }),
            r.canvas().canvas().next_id() == 0,
            r.canvas().offset() == (Coord { x: 0, y: 0 }),
            r.canvas().size() == (Size { width: 0, height: 0 }),
            r.canvas().extras() == Seq::<(Coord, ShapeView)>::empty(),
            r.canvas().marked() == Set::<nat>::empty(),
    {
        App { canvas_handler: CanvasHandler::new(), mode: ModeHandler::new() }
    }

    /// The canvas, to read.
    pub fn canvas_handler(&self) -> (r: &CanvasHandler)
        ensures
            *r == self.canvas(),
            self.wf() ==> r.wf(),
    {
        &self.canvas_handler
    }

    /// The active mode, to read.
    pub fn mode_ref(&self) -> (r: &Mode)
        ensures
            r@ == self.mode(),
            self.wf() ==> r.wf(),
    {
        self.mode.get()
    }

    /// Takes one input event: the active mode decides on its successor and
    /// on an operation, which is applied to the canvas. Returns true when
    /// the editor is to quit.
    pub fn handle_event(&mut self, event: Event) -> (quit: bool)
        requires
            old(self).wf(),
        ensures
            final(self).wf(),
            ({
                let canvas = old(self).canvas();
                let step = mode_next(
                    old(self).mode(),
                    event,
                    canvas.canvas().cursor_pos(),
                    canvas.under_cursor(),
                );
                &&& final(self).mode() == step.0
                &&& quit == (step.1 is QuitApp)
                &&& final(self).canvas().same_frame(&canvas)
                &&& final(self).canvas().canvas().entries() == entries_after(
                    canvas.canvas().entries(),
                    canvas.canvas().next_id(),
                    step.1,
                )
                &&& final(self).canvas().canvas().cursor_pos() == cursor_after(
                    canvas.canvas().cursor_pos(),
                    step.1,
                )
                &&& final(self).canvas().canvas().next_id() == next_id_after(
                    canvas.canvas().next_id(),
                    step.1,
                )
            }),
    {
        let op = self.mode.process_event(event, &self.canvas_handler);
        apply(&mut self.canvas_handler, op)
    }

    /// Prepares and renders one frame for a canvas area of size `size`: the
    /// shapes of the canvas, the shape that the mode is building, the
    /// highlight of the selected shapes, and the line of the mode.
    pub fn render(&mut self, size: Size) -> (r: Frame)
        requires
            old(self).wf(),
        ensures
            final(self).wf(),
            final(self).mode() == old(self).mode(),
            final(self).canvas().canvas() == old(self).canvas().canvas(),
            final(self).canvas().size() == size,
            final(self).canvas().extras() == old(self).mode().extras(
                old(self).canvas().canvas().cursor_pos(),
            ),
            final(self).canvas().marked() == old(self).mode().marked(),
            final(self).canvas().offset() == (Coord {
                x: clamp_i16(
                    next_offset(
                        old(self).canvas().canvas().cursor_pos().x as int,
                        old(self).canvas().offset().x as int,
                        size.width as int,
                    ),
                ) as i16,
                y: clamp_i16(
                    next_offset(
                        old(self).canvas().canvas().cursor_pos().y as int,
                        old(self).canvas().offset().y as int,
                        size.height as int,
                    ),
                ) as i16,
            }),
            paints_match(r.scene.paints@, final(self).canvas().scene(final(self).canvas().offset())),
            paints_inside(r.scene.paints@, size),
            r.scene.cursor == cursor_cell(
                old(self).canvas().canvas().cursor_pos(),
                final(self).canvas().offset(),
                size,
            ),
            r.status@ == old(self).mode().status(),
    {
        let cursor = self.canvas_handler.cursor_coord();
        let additional = self.mode.get().additinal_canvas_shapes(cursor);
        let highlight = self.mode.get().shapes_to_highlight();
        let status = self.mode.get().status_msg();
        self.canvas_handler.set_rendering_size(size);
        self.canvas_handler.set_additional_shapes(additional);
        self.canvas_handler.set_shapes_to_highlight(highlight);
        let scene = self.canvas_handler.render();
        Frame { scene, status }
    }
}

impl Default for App {
    fn default() -> (r: App)
        ensures
            r.wf(),
            r.mode() == ModeView::Normal,
            r.canvas().canvas().entries() == Seq::<Placed>::empty(),
            r.canvas().canvas().cursor_pos() == (Coord { x: 0, y: 0 }),
            r.canvas().canvas().next_id() == 0,
            r.canvas().offset() == (Coord { x: 0, y: 0 }),
            r.canvas().size() == (Size { width: 0, height: 0 }),
            r.canvas().extras() == Seq::<(Coord, ShapeView)>::empty(),
            r.canvas().marked() == Set::<nat>::empty(),
    {
        App::new()
    }
}

} // verus!
