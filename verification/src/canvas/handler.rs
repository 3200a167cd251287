use super::cursor::{cursor_step, Cursor};
use super::{id_number, top_hit, without, Canvas, Placed, ShapeId};
use crate::shape::render::{inside, Cell};
use crate::shape::{Shape, ShapeView};
use crate::util::coord::{clamp_i16, saturate_i16, Coord};
use crate::util::direction::Direction;
use crate::util::id::IdSet;
use crate::util::size::Size;
use vstd::prelude::*;

verus! {

/// A set of shape identifiers.
pub type ShapeIdSet = IdSet;

/// The offset of the visible window on one axis for the next frame, from
/// the cursor position `c`, the previous offset `p` and the extent `w` of
/// the window: the window moves only when the cursor has left it, and then
/// no further than needed.
pub open spec fn next_offset(c: int, p: int, w: int) -> int {
    if c < p {
        c
    } else if c <= p + w - 1 {
        p
    } else {
        c - (w - 1)
    }
}

/// The distance between `a` and `b`.
pub open spec fn distance(a: int, b: int) -> int {
    if a < b {
        b - a
    } else {
        a - b
    }
}

/// While the cursor stays inside the window, the window stays where it is.
pub proof fn lemma_offset_sticky(c: int, p: int, w: int)
    requires
        p <= c < p + w,
    ensures
        next_offset(c, p, w) == p,
{
}

/// The next window holds the cursor, and no window that holds the cursor is
/// nearer to the previous one.
pub proof fn lemma_offset_minimal(c: int, p: int, w: int, other: int)
    requires
        w >= 1,
        other <= c < other + w,
    ensures
        next_offset(c, p, w) <= c < next_offset(c, p, w) + w,
        distance(next_offset(c, p, w), p) <= distance(other, p),
{
}

/// The next window offset on one axis, kept within 16 bits.
pub fn scroll(c: i16, p: i16, w: u16) -> (r: i16)
    ensures
        r == clamp_i16(next_offset(c as int, p as int, w as int)),
        w >= 1 ==> r == next_offset(c as int, p as int, w as int),
{
    let c32 = c as i32;
    let p32 = p as i32;
    let w32 = w as i32;
    if c32 < p32 {
        c
    } else if c32 < p32 + w32 {
        p
    } else {
        saturate_i16(c32 - (w32 - 1))
    }
}

/// One character to draw, and whether it belongs to a highlighted shape.
#[derive(PartialEq, Eq, Structural, Hash, Copy, Clone, Debug)]
pub struct Paint {
    pub cell: Cell,
    pub highlight: bool,
}

/// What a frame shows: the characters to draw, in drawing order, and the
/// cell of the cursor. Positions are relative to the upper left corner of
/// the rendering area.
#[derive(Debug)]
pub struct Scene {
    pub paints: Vec<Paint>,
    pub cursor: Option<(u16, u16)>,
}

/// A drawn character as the contracts see it: column and row in the
/// rendering area, the character, and whether it is highlighted.
pub type Painted = (int, int, char, bool);

/// What is drawn of `shape`, whose corner lies at `offset` from the corner of
/// the rendering area.
pub open spec fn shape_paint(shape: ShapeView, offset: Coord, area: Size, highlight: bool) -> Seq<
    Painted,
> {
    let glyphs = shape.glyphs(offset, area);
    Seq::new(
        glyphs.len(),
        |k: int| (offset.x + glyphs[k].0, offset.y + glyphs[k].1, glyphs[k].2, highlight),
    )
}

/// What is drawn of the first `n` placed shapes, bottom one first, through
/// a window at `view`; a shape in `marked` is highlighted.
pub open spec fn canvas_paint(entries: Seq<Placed>, marked: Set<nat>, view: Coord, area: Size, n: int) -> Seq<
    Painted,
>
    decreases n,
{
    if n <= 0 {
        Seq::empty()
    } else {
        let p = entries[n - 1];
        canvas_paint(entries, marked, view, area, n - 1) + shape_paint(
            p.2,
            p.1.spec_offset(view),
            area,
            marked.contains(p.0),
        )
    }
}

/// What is drawn of the first `n` of the shapes `extras`, which belong to the
/// mode and not to the canvas. None is highlighted.
pub open spec fn extras_paint(extras: Seq<(Coord, ShapeView)>, view: Coord, area: Size, n: int) -> Seq<
    Painted,
>
    decreases n,
{
    if n <= 0 {
        Seq::empty()
    } else {
        let e = extras[n - 1];
        extras_paint(extras, view, area, n - 1) + shape_paint(e.1, e.0.spec_offset(view), area, false)
    }
}

/// `paints` are `painted`, one for one.
pub open spec fn paints_match(paints: Seq<Paint>, painted: Seq<Painted>) -> bool {
    &&& paints.len() == painted.len()
    &&& forall|k: int|
        0 <= k < paints.len() ==> {
            &&& (#[trigger] paints[k]).cell.x == painted[k].0
            &&& paints[k].cell.y == painted[k].1
            &&& paints[k].cell.ch == painted[k].2
            &&& paints[k].highlight == painted[k].3
        }
}

/// Every paint lies inside an area of size `area`.
pub open spec fn paints_inside(paints: Seq<Paint>, area: Size) -> bool {
    forall|k: int|
        0 <= k < paints.len() ==> (#[trigger] paints[k]).cell.x < area.width && paints[k].cell.y
            < area.height
}

/// The cell of the cursor in a window at `view` of size `area`, where the
/// cursor is inside the window.
pub open spec fn cursor_cell(cursor: Coord, view: Coord, area: Size) -> Option<(u16, u16)> {
    let x = cursor.x - view.x;
    let y = cursor.y - view.y;
    if 0 <= x < area.width && 0 <= y < area.height {
        Some((x as u16, y as u16))
    } else {
        None
    }
}

/// `entries` with every shape whose identifier is in `ids` moved one step
/// in direction `dir`.
pub open spec fn moved_all(entries: Seq<Placed>, ids: Set<nat>, dir: Direction) -> Seq<Placed> {
    Seq::new(
        entries.len(),
        |k: int|
            if ids.contains(entries[k].0) {
                (entries[k].0, entries[k].1.spec_adjacency(dir), entries[k].2)
            } else {
                entries[k]
            },
    )
}

/// `entries` without the shapes whose identifier is in `ids`.
pub open spec fn without_all(entries: Seq<Placed>, ids: Set<nat>) -> Seq<Placed> {
    entries.filter(|p: Placed| !ids.contains(p.0))
}

/// Taking out the shapes in `ids` and then the shape `id` takes out the
/// shapes in `ids` with `id` added.
pub proof fn lemma_without_more(entries: Seq<Placed>, ids: Set<nat>, id: nat)
    ensures
        without(without_all(entries, ids), id) == without_all(entries, ids.insert(id)),
    decreases entries.len(),
{
    reveal(Seq::filter);
    if entries.len() > 0 {
        lemma_without_more(entries.drop_last(), ids, id);
        let head = without_all(entries.drop_last(), ids);
        let last = entries.last();
        if !ids.contains(last.0) {
            assert(without_all(entries, ids) == head.push(last));
            assert(head.push(last).drop_last() =~= head);
        }
    }
}

/// Taking out no shape leaves the entries as they are.
pub proof fn lemma_without_none(entries: Seq<Placed>)
    ensures
        without_all(entries, Set::<nat>::empty()) == entries,
    decreases entries.len(),
{
    reveal(Seq::filter);
    if entries.len() > 0 {
        lemma_without_none(entries.drop_last());
        assert(entries.drop_last().push(entries.last()) =~= entries);
    }
}

/// Canvas handler: the canvas together with what a frame needs besides it.
pub struct CanvasHandler {
    canvas: Canvas,
    rendering_offset: Coord,
    rendering_size: Size,
    additional_shapes: Vec<(Coord, Shape)>,
    shapes_to_highlight: ShapeIdSet,
}

impl CanvasHandler {
    /// The canvas.
    pub closed spec fn canvas(&self) -> Canvas {
        self.canvas
    }

    /// The canvas position at the upper left corner of the last frame.
    pub closed spec fn offset(&self) -> Coord {
        self.rendering_offset
    }

    /// The size of the rendering area.
    pub closed spec fn size(&self) -> Size {
        self.rendering_size
    }

    /// The shapes of the mode, drawn over those of the canvas.
    pub closed spec fn extras(&self) -> Seq<(Coord, ShapeView)> {
        Seq::new(
            self.additional_shapes@.len(),
            |k: int| (self.additional_shapes@[k].0, self.additional_shapes@[k].1@),
        )
    }

    /// The identifiers of the shapes that are highlighted.
    pub closed spec fn marked(&self) -> Set<nat> {
        self.shapes_to_highlight@
    }

    /// The canvas, the additional shapes and the highlight set are well formed.
    pub closed spec fn wf(&self) -> bool {
        &&& self.canvas.wf()
        &&& self.shapes_to_highlight.wf()
        &&& forall|k: int|
            0 <= k < self.additional_shapes@.len() ==> (#[trigger] self.additional_shapes@[k]).1.wf()
    }

    /// The identifier of the topmost shape that is hit at the cursor.
    pub open spec fn under_cursor(&self) -> Option<nat> {
        top_hit(
            self.canvas().entries(),
            self.canvas().cursor_pos(),
            self.canvas().entries().len() as int,
        )
    }

    /// What the next frame shows, seen through a window at `view`.
    pub open spec fn scene(&self, view: Coord) -> Seq<Painted> {
        canvas_paint(
            self.canvas().entries(),
            self.marked(),
            view,
            self.size(),
            self.canvas().entries().len() as int,
        ) + extras_paint(self.extras(), view, self.size(), self.extras().len() as int)
    }

    /// The window of the next frame: on each axis it follows the cursor.
    pub open spec fn next_view(&self) -> Coord {
        Coord {
            x: clamp_i16(
                next_offset(
                    self.canvas().cursor_pos().x as int,
                    self.offset().x as int,
                    self.size().width as int,
                ),
            ) as i16,
            y: clamp_i16(
                next_offset(
                    self.canvas().cursor_pos().y as int,
                    self.offset().y as int,
                    self.size().height as int,
                ),
            ) as i16,
        }
    }

    /// Everything but the canvas is as in `other`.
    pub open spec fn same_frame(&self, other: &CanvasHandler) -> bool {
        &&& self.offset() == other.offset()
        &&& self.size() == other.size()
        &&& self.extras() == other.extras()
        &&& self.marked() == other.marked()
    }

    /// An empty canvas with the cursor at the origin.
    pub fn new() -> (r: CanvasHandler)
        ensures
            r.wf(),
            r.canvas().entries() == Seq::<Placed>::empty(),
            r.canvas().next_id() == 0,
            r.canvas().cursor_pos() == (Coord { x: 0, y: 0 }),
            r.offset() == (Coord { x: 0, y: 0 }),
            r.size() == (Size { width: 0, height: 0 }),
            r.extras() == Seq::<(Coord, ShapeView)>::empty(),
            r.marked() == Set::<nat>::empty(),
    {
        let r = CanvasHandler {
            canvas: Canvas::new(),
            rendering_offset: Coord { x: 0, y: 0 },
            rendering_size: Size { width: 0, height: 0 },
            additional_shapes: Vec::new(),
            shapes_to_highlight: IdSet::new(),
        };
        assert(r.extras() =~= Seq::<(Coord, ShapeView)>::empty());
        r
    }

    /// Whether an identifier is left for one more shape.
    pub fn can_add_shape(&self) -> (r: bool)
        ensures
            r == (self.canvas().next_id() < usize::MAX),
    {
        self.canvas.can_add_shape()
    }

    pub fn add_shape(&mut self, coord: Coord, shape: Shape) -> (id: ShapeId)
        requires
            old(self).wf(),
            shape.wf(),
            old(self).canvas().next_id() < usize::MAX,
        ensures
            final(self).wf(),
            final(self).same_frame(old(self)),
            id@ == old(self).canvas().next_id(),
            final(self).canvas().next_id() == old(self).canvas().next_id() + 1,
            final(self).canvas().entries() == old(self).canvas().entries().push((id@, coord, shape@)),
            final(self).canvas().cursor_pos() == old(self).canvas().cursor_pos(),
    {
        self.canvas.add_shape(coord, shape)
    }

    /// The canvas, to read.
    pub fn canvas_ref(&self) -> (r: &Canvas)
        ensures
            *r == self.canvas(),
    {
        &self.canvas
    }

    pub fn cursor(&self) -> (r: &Cursor)
        ensures
            r@ == self.canvas().cursor_pos(),
    {
        self.canvas.cursor()
    }

    pub fn move_cursor(&mut self, dir: Direction)
        ensures
            final(self).canvas().cursor_pos() == cursor_step(old(self).canvas().cursor_pos(), dir),
            final(self).canvas().entries() == old(self).canvas().entries(),
            final(self).canvas().next_id() == old(self).canvas().next_id(),
            final(self).same_frame(old(self)),
            old(self).wf() ==> final(self).wf(),
    {
        self.canvas.move_cursor(dir);
    }

    pub fn set_cursor(&mut self, coord: Coord)
        ensures
            final(self).canvas().cursor_pos() == coord,
            final(self).canvas().entries() == old(self).canvas().entries(),
            final(self).canvas().next_id() == old(self).canvas().next_id(),
            final(self).same_frame(old(self)),
            old(self).wf() ==> final(self).wf(),
    {
        self.canvas.set_cursor(coord);
    }

    pub fn cursor_coord(&self) -> (r: Coord)
        ensures
            r == self.canvas().cursor_pos(),
    {
        self.canvas.cursor().coord()
    }

    /// The canvas position at the upper left corner of the last frame.
    pub fn rendering_offset(&self) -> (r: Coord)
        ensures
            r == self.offset(),
    {
        self.rendering_offset
    }

    /// The size of the rendering area.
    pub fn rendering_size(&self) -> (r: Size)
        ensures
            r == self.size(),
    {
        self.rendering_size
    }

    pub fn set_rendering_size(&mut self, size: Size)
        ensures
            final(self).size() == size,
            final(self).canvas() == old(self).canvas(),
            final(self).offset() == old(self).offset(),
            final(self).extras() == old(self).extras(),
            final(self).marked() == old(self).marked(),
            old(self).wf() ==> final(self).wf(),
    {
        self.rendering_size = size;
    }

    pub fn set_additional_shapes(&mut self, shapes: Vec<(Coord, Shape)>)
        requires
            forall|k: int| 0 <= k < shapes@.len() ==> (#[trigger] shapes@[k]).1.wf(),
        ensures
            final(self).extras() == crate::mode::extras_view(shapes@),
            final(self).canvas() == old(self).canvas(),
            final(self).offset() == old(self).offset(),
            final(self).size() == old(self).size(),
            final(self).marked() == old(self).marked(),
            old(self).wf() ==> final(self).wf(),
    {
        self.additional_shapes = shapes;
    }

    pub fn set_shapes_to_highlight(&mut self, shapes: ShapeIdSet)
        requires
            shapes.wf(),
        ensures
            final(self).marked() == shapes@,
            final(self).canvas() == old(self).canvas(),
            final(self).offset() == old(self).offset(),
            final(self).size() == old(self).size(),
            final(self).extras() == old(self).extras(),
            old(self).wf() ==> final(self).wf(),
    {
        self.shapes_to_highlight = shapes;
    }

    /// Update rendering offset.
    /// This method must be called before rendering canvas.
    pub fn update_rendering_offset(&mut self)
        ensures
            final(self).offset() == old(self).next_view(),
            final(self).canvas() == old(self).canvas(),
            final(self).size() == old(self).size(),
            final(self).extras() == old(self).extras(),
            final(self).marked() == old(self).marked(),
            old(self).wf() ==> final(self).wf(),
    {
        let cursor = self.canvas.cursor().coord();
        self.rendering_offset = Coord {
            x: scroll(cursor.x, self.rendering_offset.x, self.rendering_size.width),
            y: scroll(cursor.y, self.rendering_offset.y, self.rendering_size.height),
        };
    }

    /// Id of the shape directly under the cursor: the topmost one that is hit.
    pub fn shape_id_under_the_cursor(&self) -> (r: Option<ShapeId>)
        requires
            self.wf(),
        ensures
            id_number(r) == self.under_cursor(),
    {
        self.canvas.shape_at(self.canvas.cursor().coord())
    }

    pub fn cursor_hits_shape(&self) -> (r: bool)
        requires
            self.wf(),
        ensures
            r == self.under_cursor() is Some,
    {
        self.shape_id_under_the_cursor().is_some()
    }

    /// Moves every shape whose identifier is in `ids` one step in direction `dir`.
    pub fn move_shapes(&mut self, ids: &ShapeIdSet, dir: Direction)
        requires
            old(self).wf(),
            ids.wf(),
        ensures
            final(self).wf(),
            final(self).same_frame(old(self)),
            final(self).canvas().cursor_pos() == old(self).canvas().cursor_pos(),
            final(self).canvas().next_id() == old(self).canvas().next_id(),
            final(self).canvas().entries() == moved_all(old(self).canvas().entries(), ids@, dir),
    {
        let ghost start = self.canvas.entries();
        let mut it = ids.iter();
        assert(self.canvas.entries() =~= moved_all(start, ids@.difference(it.remaining()), dir));
        loop
            invariant
                self.wf(),
                self.same_frame(old(self)),
                self.canvas.cursor_pos() == old(self).canvas.cursor_pos(),
                self.canvas.next_id() == old(self).canvas.next_id(),
                start == old(self).canvas.entries(),
                it.wf(),
                it.source() == ids@,
                it.remaining().subset_of(ids@),
                self.canvas.entries() == moved_all(start, ids@.difference(it.remaining()), dir),
            ensures
                self.wf(),
                self.same_frame(old(self)),
                self.canvas.cursor_pos() == old(self).canvas.cursor_pos(),
                self.canvas.next_id() == old(self).canvas.next_id(),
                self.canvas.entries() == moved_all(start, ids@, dir),
            decreases it.blocks_left(), it.bits_left(),
        {
            let ghost before = it.remaining();
            let ghost entries = self.canvas.entries();
            match it.next() {
                None => {
                    assert(ids@.difference(before) =~= ids@);
                    break;
                },
                Some(id) => {
                    self.canvas.move_shape(id, dir);
                    proof {
                        let done = ids@.difference(before);
                        let more = ids@.difference(it.remaining());
                        assert(more =~= done.insert(id@));
                        assert(!done.contains(id@));
                        assert forall|k: int| 0 <= k < start.len() implies #[trigger] self.canvas.entries()[k]
                            == moved_all(start, more, dir)[k] by {
                            assert(entries[k] == moved_all(start, done, dir)[k]);
                        }
                        assert(self.canvas.entries() =~= moved_all(start, more, dir));
                    }
                },
            }
        }
    }

    /// Removes every shape whose identifier is in `ids`.
    pub fn delte_shapes(&mut self, ids: &ShapeIdSet)
        requires
            old(self).wf(),
            ids.wf(),
        ensures
            final(self).wf(),
            final(self).same_frame(old(self)),
            final(self).canvas().cursor_pos() == old(self).canvas().cursor_pos(),
            final(self).canvas().next_id() == old(self).canvas().next_id(),
            final(self).canvas().entries() == without_all(old(self).canvas().entries(), ids@),
    {
        let ghost start = self.canvas.entries();
        let mut it = ids.iter();
        proof {
            assert(ids@.difference(it.remaining()) =~= Set::<nat>::empty());
            lemma_without_none(start);
        }
        loop
            invariant
                self.wf(),
                self.same_frame(old(self)),
                self.canvas.cursor_pos() == old(self).canvas.cursor_pos(),
                self.canvas.next_id() == old(self).canvas.next_id(),
                start == old(self).canvas.entries(),
                it.wf(),
                it.source() == ids@,
                it.remaining().subset_of(ids@),
                self.canvas.entries() == without_all(start, ids@.difference(it.remaining())),
            ensures
                self.wf(),
                self.same_frame(old(self)),
                self.canvas.cursor_pos() == old(self).canvas.cursor_pos(),
                self.canvas.next_id() == old(self).canvas.next_id(),
                self.canvas.entries() == without_all(start, ids@),
            decreases it.blocks_left(), it.bits_left(),
        {
            let ghost before = it.remaining();
            match it.next() {
                None => {
                    assert(ids@.difference(before) =~= ids@);
                    break;
                },
                Some(id) => {
                    self.canvas.delete_shape(id);
                    proof {
                        let done = ids@.difference(before);
                        assert(ids@.difference(it.remaining()) =~= done.insert(id@));
                        lemma_without_more(start, done, id@);
                    }
                },
            }
        }
    }

    /// Moves the window after the cursor and tells what the frame shows: the
    /// shapes of the canvas, bottom one first, then the additional shapes,
    /// and the cell of the cursor.
    pub fn render(&mut self) -> (r: Scene)
        requires
            old(self).wf(),
        ensures
            final(self).wf(),
            final(self).offset() == old(self).next_view(),
            final(self).canvas() == old(self).canvas(),
            final(self).size() == old(self).size(),
            final(self).extras() == old(self).extras(),
            final(self).marked() == old(self).marked(),
            paints_match(r.paints@, old(self).scene(old(self).next_view())),
            paints_inside(r.paints@, old(self).size()),
            r.cursor == cursor_cell(
                old(self).canvas().cursor_pos(),
                old(self).next_view(),
                old(self).size(),
            ),
    {
        self.update_rendering_offset();
        let view = self.rendering_offset;
        let area = self.rendering_size;
        let mut paints: Vec<Paint> = Vec::new();
        let ghost entries = self.canvas.entries();
        let ghost marked = self.shapes_to_highlight@;
        let n = self.canvas.len();
        let mut k: usize = 0;
        while k < n
            invariant
                k <= n,
                n == entries.len(),
                self.wf(),
                entries == self.canvas.entries(),
                marked == self.shapes_to_highlight@,
                view == self.rendering_offset,
                area == self.rendering_size,
                paints_match(paints@, canvas_paint(entries, marked, view, area, k as int)),
                paints_inside(paints@, area),
            decreases n - k,
        {
            let (id, coord, shape) = self.canvas.get(k);
            let highlight = self.shapes_to_highlight.contains(&id);
            let offset = coord.offset(view);
            let cells = shape.render(offset, area);
            let ghost before = canvas_paint(entries, marked, view, area, k as int);
            let ghost more = shape_paint(entries[k as int].2, offset, area, highlight);
            append_paints(&mut paints, &cells, highlight, Ghost(before), Ghost(more), Ghost(area));
            k += 1;
        }
        let ghost extras = self.extras();
        let ghost below = canvas_paint(entries, marked, view, area, n as int);
        let m = self.additional_shapes.len();
        let mut j: usize = 0;
        assert(below + extras_paint(extras, view, area, 0) =~= below);
        while j < m
            invariant
                j <= m,
                m == self.additional_shapes@.len(),
                self.wf(),
                extras == self.extras(),
                view == self.rendering_offset,
                area == self.rendering_size,
                paints_match(paints@, below + extras_paint(extras, view, area, j as int)),
                paints_inside(paints@, area),
            decreases m - j,
        {
            let e = &self.additional_shapes[j];
            let offset = e.0.offset(view);
            let cells = e.1.render(offset, area);
            let ghost before = below + extras_paint(extras, view, area, j as int);
            let ghost more = shape_paint(extras[j as int].1, offset, area, false);
            append_paints(&mut paints, &cells, false, Ghost(before), Ghost(more), Ghost(area));
            assert(before + more =~= below + extras_paint(extras, view, area, j as int + 1));
            j += 1;
        }
        let cursor = self.canvas.cursor().coord();
        let x = cursor.x as i32 - view.x as i32;
        let y = cursor.y as i32 - view.y as i32;
        let cell = if 0 <= x && x < area.width as i32 && 0 <= y && y < area.height as i32 {
            Some((x as u16, y as u16))
        } else {
            None
        };
        Scene { paints, cursor: cell }
    }
}

/// Appends `cells` to `paints`, each with the given highlight.
fn append_paints(
    paints: &mut Vec<Paint>,
    cells: &Vec<Cell>,
    highlight: bool,
    Ghost(before): Ghost<Seq<Painted>>,
    Ghost(more): Ghost<Seq<Painted>>,
    Ghost(area): Ghost<Size>,
)
    requires
        paints_match(old(paints)@, before),
        paints_inside(old(paints)@, area),
        inside(cells@, area),
        cells@.len() == more.len(),
        forall|k: int|
            0 <= k < cells@.len() ==> {
                &&& (#[trigger] cells@[k]).x == more[k].0
                &&& cells@[k].y == more[k].1
                &&& cells@[k].ch == more[k].2
                &&& highlight == more[k].3
            },
    ensures
        paints_match(final(paints)@, before + more),
        paints_inside(final(paints)@, area),
{
    let mut k: usize = 0;
    assert(before + more.take(0) =~= before);
    while k < cells.len()
        invariant
            k <= cells.len(),
            inside(cells@, area),
            cells@.len() == more.len(),
            forall|j: int|
                0 <= j < cells@.len() ==> {
                    &&& (#[trigger] cells@[j]).x == more[j].0
                    &&& cells@[j].y == more[j].1
                    &&& cells@[j].ch == more[j].2
                    &&& highlight == more[j].3
                },
            paints_match(paints@, before + more.take(k as int)),
            paints_inside(paints@, area),
        decreases cells.len() - k,
    {
        let ghost shown = paints@;
        paints.push(Paint { cell: cells[k], highlight });
        proof {
            assert(before + more.take(k as int + 1) =~= (before + more.take(k as int)).push(
                more[k as int],
            ));
            assert forall|j: int| 0 <= j < paints@.len() implies {
                &&& (#[trigger] paints@[j]).cell.x == (before + more.take(k as int + 1))[j].0
                &&& paints@[j].cell.y == (before + more.take(k as int + 1))[j].1
                &&& paints@[j].cell.ch == (before + more.take(k as int + 1))[j].2
                &&& paints@[j].highlight == (before + more.take(k as int + 1))[j].3
                &&& paints@[j].cell.x < area.width
                &&& paints@[j].cell.y < area.height
            } by {
                if j < shown.len() {
                    assert(paints@[j] == shown[j]);
                } else {
                    assert(paints@[j].cell == cells@[k as int]);
                }
            }
        }
        k += 1;
    }
    assert(more.take(cells.len() as int) =~= more);
}

impl Default for CanvasHandler {
    fn default() -> (r: CanvasHandler)
        ensures
            r.wf(),
            r.canvas().entries() == Seq::<Placed>::empty(),
            r.canvas().next_id() == 0,
            r.canvas().cursor_pos() == (Coord { x: 0, y: 0 }),
            r.offset() == (Coord { x: 0, y: 0 }),
            r.size() == (Size { width: 0, height: 0 }),
            r.extras() == Seq::<(Coord, ShapeView)>::empty(),
            r.marked() == Set::<nat>::empty(),
    {
        CanvasHandler::new()
    }
}

} // verus!
