//! The canvas: the placed shapes, in the order in which they were placed,
//! and the cursor.

pub mod cursor;
pub mod handler;

use crate::shape::{Shape, ShapeView};
use crate::util::coord::Coord;
use crate::util::direction::Direction;
use crate::util::id::{Id, IdGenerator};
use cursor::{cursor_step, Cursor};
use vstd::prelude::*;

verus! {

/// Identifier of a shape on a canvas. A shape placed later has a larger
/// identifier, and is drawn over shapes placed earlier.
pub type ShapeId = Id;

/// A placed shape as the contracts see it: the number of its identifier, the
/// position of its upper left corner, and the shape.
pub type Placed = (nat, Coord, ShapeView);

/// Whether the placed shape `p` is hit at the canvas position `at`.
pub open spec fn placed_hit(p: Placed, at: Coord) -> bool {
    p.2.hit(at.spec_offset(p.1))
}

/// The identifier of the topmost of the first `n` of `entries` that is hit
/// at the canvas position `at`, or `None` where none is hit.
pub open spec fn top_hit(entries: Seq<Placed>, at: Coord, n: int) -> Option<nat>
    decreases n,
{
    if n <= 0 {
        None
    } else if placed_hit(entries[n - 1], at) {
        Some(entries[n - 1].0)
    } else {
        top_hit(entries, at, n - 1)
    }
}

/// The number of an identifier that may be missing.
pub open spec fn id_number(id: Option<ShapeId>) -> Option<nat> {
    match id {
        Some(id) => Some(id@),
        None => None,
    }
}

/// The top hit is a shape that is hit, and no shape above it is hit.
pub proof fn lemma_top_hit(entries: Seq<Placed>, at: Coord, n: int)
    requires
        0 <= n <= entries.len(),
    ensures
        match top_hit(entries, at, n) {
            Some(id) => exists|k: int|
                {
                    &&& 0 <= k < n
                    &&& (#[trigger] entries[k]).0 == id
                    &&& placed_hit(entries[k], at)
                    &&& forall|j: int| k < j < n ==> !placed_hit(#[trigger] entries[j], at)
                },
            None => forall|k: int| 0 <= k < n ==> !placed_hit(#[trigger] entries[k], at),
        },
    decreases n,
{
    if n > 0 {
        if placed_hit(entries[n - 1], at) {
            assert(entries[n - 1].0 == top_hit(entries, at, n)->0);
        } else {
            lemma_top_hit(entries, at, n - 1);
            if top_hit(entries, at, n - 1) is Some {
                let k = choose|k: int|
                    {
                        &&& 0 <= k < n - 1
                        &&& (#[trigger] entries[k]).0 == top_hit(entries, at, n - 1)->0
                        &&& placed_hit(entries[k], at)
                        &&& forall|j: int| k < j < n - 1 ==> !placed_hit(#[trigger] entries[j], at)
                    };
                assert(entries[k].0 == top_hit(entries, at, n)->0);
            }
        }
    }
}

/// `entries` without the shape, if any, that has the identifier `id`.
pub open spec fn without(entries: Seq<Placed>, id: nat) -> Seq<Placed> {
    entries.filter(|p: Placed| p.0 != id)
}

/// The identifiers grow strictly along `entries`.
pub open spec fn ascending(entries: Seq<Placed>) -> bool {
    forall|j: int, k: int| 0 <= j < k < entries.len() ==> entries[j].0 < entries[k].0
}

/// Canvas to put shapes.
pub struct Canvas {
    sig: IdGenerator,
    shapes: Vec<(ShapeId, Coord, Shape)>,
    cursor: Cursor,
}

impl Canvas {
    /// The placed shapes, bottom one first.
    pub closed spec fn entries(&self) -> Seq<Placed> {
        Seq::new(
            self.shapes@.len(),
            |k: int| (self.shapes@[k].0@, self.shapes@[k].1, self.shapes@[k].2@),
        )
    }

    /// The number of the identifier that the next shape gets.
    pub closed spec fn next_id(&self) -> nat {
        self.sig.next()
    }

    /// The position of the cursor.
    pub closed spec fn cursor_pos(&self) -> Coord {
        self.cursor@
    }

    /// Identifiers grow along the shapes and are all used up ones, and every
    /// shape is well formed.
    pub closed spec fn wf(&self) -> bool {
        &&& ascending(self.entries())
        &&& forall|k: int| 0 <= k < self.shapes@.len() ==> (#[trigger] self.shapes@[k]).0@ < self.sig.next()
        &&& forall|k: int| 0 <= k < self.shapes@.len() ==> (#[trigger] self.shapes@[k]).2.wf()
    }

    /// On a well-formed canvas identifiers grow along the shapes, and none
    /// reaches the next identifier.
    pub proof fn lemma_wf_ids(&self)
        requires
            self.wf(),
        ensures
            ascending(self.entries()),
            forall|k: int| 0 <= k < self.entries().len() ==> (#[trigger] self.entries()[k]).0 < self.next_id(),
    {
        assert forall|k: int| 0 <= k < self.entries().len() implies (#[trigger] self.entries()[k]).0
            < self.next_id() by {
            assert(self.shapes@[k].0@ < self.sig.next());
        }
    }

    pub fn new() -> (r: Canvas)
        ensures
            r.wf(),
            r.entries() == Seq::<Placed>::empty(),
            r.next_id() == 0,
            r.cursor_pos() == (Coord { x: 0, y: 0 }),
    {
        let r = Canvas { sig: IdGenerator::new(), shapes: Vec::new(), cursor: Cursor::default() };
        assert(r.entries() =~= Seq::<Placed>::empty());
        r
    }

    /// Whether an identifier is left for one more shape.
    pub fn can_add_shape(&self) -> (r: bool)
        ensures
            r == (self.next_id() < usize::MAX),
    {
        self.sig.has_next()
    }

    /// Add new shape to canvas.
    /// `coord` is the coord of upper-left corner of the shape.
    pub fn add_shape(&mut self, coord: Coord, shape: Shape) -> (id: ShapeId)
        requires
            old(self).wf(),
            shape.wf(),
            old(self).next_id() < usize::MAX,
        ensures
            final(self).wf(),
            id@ == old(self).next_id(),
            final(self).next_id() == old(self).next_id() + 1,
            final(self).entries() == old(self).entries().push((id@, coord, shape@)),
            final(self).cursor_pos() == old(self).cursor_pos(),
    {
        let id = self.sig.gen();
        let ghost view = shape@;
        self.shapes.push((id, coord, shape));
        assert(self.entries() =~= old(self).entries().push((id@, coord, view)));
        assert forall|j: int, k: int| 0 <= j < k < self.entries().len() implies self.entries()[j].0
            < self.entries()[k].0 by {
            assert(old(self).shapes@[j].0@ < old(self).sig.next());
            if k < old(self).shapes@.len() {
                assert(old(self).entries()[j].0 < old(self).entries()[k].0);
            }
        }
        id
    }

    /// The number of shapes on the canvas.
    pub fn len(&self) -> (r: usize)
        ensures
            r == self.entries().len(),
    {
        self.shapes.len()
    }

    /// The `k`-th shape from the bottom: its identifier, the position of its
    /// upper left corner, and the shape.
    pub fn get(&self, k: usize) -> (r: (ShapeId, Coord, &Shape))
        requires
            self.wf(),
            k < self.entries().len(),
        ensures
            (r.0@, r.1, r.2@) == self.entries()[k as int],
            r.2.wf(),
    {
        let e = &self.shapes[k];
        (e.0, e.1, &e.2)
    }

    pub fn cursor(&self) -> (r: &Cursor)
        ensures
            r@ == self.cursor_pos(),
    {
        &self.cursor
    }

    pub fn move_cursor(&mut self, dir: Direction)
        ensures
            final(self).cursor_pos() == cursor_step(old(self).cursor_pos(), dir),
            final(self).entries() == old(self).entries(),
            final(self).next_id() == old(self).next_id(),
            old(self).wf() ==> final(self).wf(),
    {
        self.cursor.move_next(dir);
    }

    pub fn set_cursor(&mut self, coord: Coord)
        ensures
            final(self).cursor_pos() == coord,
            final(self).entries() == old(self).entries(),
            final(self).next_id() == old(self).next_id(),
            old(self).wf() ==> final(self).wf(),
    {
        self.cursor.move_to(coord);
    }

    /// The topmost shape that is hit at the canvas position `coord`.
    pub fn shape_at(&self, coord: Coord) -> (r: Option<ShapeId>)
        requires
            self.wf(),
        ensures
            id_number(r) == top_hit(self.entries(), coord, self.entries().len() as int),
    {
        let mut k: usize = self.shapes.len();
        while k > 0
            invariant
                k <= self.shapes.len(),
                self.wf(),
                top_hit(self.entries(), coord, self.entries().len() as int) == top_hit(
                    self.entries(),
                    coord,
                    k as int,
                ),
            decreases k,
        {
            k -= 1;
            let e = &self.shapes[k];
            let local = coord.offset(e.1);
            if e.2.hit(local) {
                assert(placed_hit(self.entries()[k as int], coord));
                return Some(e.0);
            }
            assert(!placed_hit(self.entries()[k as int], coord));
        }
        None
    }

    /// The index of the shape with identifier `id`.
    fn find(&self, id: ShapeId) -> (r: Option<usize>)
        ensures
            match r {
                Some(k) => k < self.shapes@.len() && self.shapes@[k as int].0@ == id@,
                None => forall|k: int| 0 <= k < self.shapes@.len() ==> self.shapes@[k].0@ != id@,
            },
    {
        let mut k: usize = 0;
        while k < self.shapes.len()
            invariant
                k <= self.shapes.len(),
                forall|j: int| 0 <= j < k ==> self.shapes@[j].0@ != id@,
            decreases self.shapes.len() - k,
        {
            if self.shapes[k].0.value() == id.value() {
                return Some(k);
            }
            k += 1;
        }
        None
    }

    /// Whether the canvas holds a shape with identifier `id`.
    pub fn contains(&self, id: ShapeId) -> (r: bool)
        ensures
            r == exists|k: int| 0 <= k < self.entries().len() && (#[trigger] self.entries()[k]).0 == id@,
    {
        match self.find(id) {
            Some(k) => {
                assert(self.entries()[k as int].0 == id@);
                true
            },
            None => {
                assert forall|k: int| 0 <= k < self.entries().len() implies (
                #[trigger] self.entries()[k]).0 != id@ by {
                    assert(self.shapes@[k].0@ != id@);
                }
                false
            },
        }
    }

    /// Moves the shape with identifier `id` one step in direction `dir`.
    /// Nothing changes where no shape has that identifier.
    pub fn move_shape(&mut self, id: ShapeId, dir: Direction)
        requires
            old(self).wf(),
        ensures
            final(self).wf(),
            final(self).cursor_pos() == old(self).cursor_pos(),
            final(self).next_id() == old(self).next_id(),
            final(self).entries().len() == old(self).entries().len(),
            forall|k: int|
                0 <= k < old(self).entries().len() ==> #[trigger] final(self).entries()[k] == if old(
                    self,
                ).entries()[k].0 == id@ {
                    (id@, old(self).entries()[k].1.spec_adjacency(dir), old(self).entries()[k].2)
                } else {
                    old(self).entries()[k]
                },
    {
        match self.find(id) {
            Some(k) => {
                let moved = self.shapes[k].1.adjacency(dir);
                let e = &mut self.shapes[k];
                e.1 = moved;
                proof {
                    assert forall|j: int| 0 <= j < self.shapes@.len() implies {
                        &&& (#[trigger] self.shapes@[j]).0 == old(self).shapes@[j].0
                        &&& self.shapes@[j].2 == old(self).shapes@[j].2
                    } by {}
                    assert forall|j: int, m: int|
                        0 <= j < m < self.entries().len() implies self.entries()[j].0
                        < self.entries()[m].0 by {
                        assert(old(self).entries()[j].0 < old(self).entries()[m].0);
                    }
                    assert forall|j: int| 0 <= j < old(self).entries().len() implies #[trigger] self.entries()[j]
                        == if old(self).entries()[j].0 == id@ {
                        (id@, old(self).entries()[j].1.spec_adjacency(dir), old(self).entries()[j].2)
                    } else {
                        old(self).entries()[j]
                    } by {
                        if j != k {
                            if j < k {
                                assert(old(self).entries()[j].0 < old(self).entries()[k as int].0);
                            } else {
                                assert(old(self).entries()[k as int].0 < old(self).entries()[j].0);
                            }
                        }
                    }
                }
            },
            None => {
                proof {
                    assert forall|j: int| 0 <= j < old(self).entries().len() implies old(
                        self,
                    ).entries()[j].0 != id@ by {
                        assert(self.shapes@[j].0@ != id@);
                    }
                }
            },
        }
    }

    /// Removes the shape with identifier `id`. Nothing changes where no
    /// shape has that identifier.
    pub fn delete_shape(&mut self, id: ShapeId)
        requires
            old(self).wf(),
        ensures
            final(self).wf(),
            final(self).cursor_pos() == old(self).cursor_pos(),
            final(self).next_id() == old(self).next_id(),
            final(self).entries() == without(old(self).entries(), id@),
    {
        match self.find(id) {
            Some(k) => {
                self.shapes.remove(k);
                proof {
                    assert(self.entries() =~= old(self).entries().remove(k as int));
                    assert forall|j: int, m: int|
                        0 <= j < m < self.entries().len() implies self.entries()[j].0
                        < self.entries()[m].0 by {
                        let oj = if j < k { j } else { j + 1 };
                        let om = if m < k { m } else { m + 1 };
                        assert(old(self).entries()[oj].0 < old(self).entries()[om].0);
                    }
                    assert forall|j: int|
                        0 <= j < old(self).entries().len() && j != k implies old(self).entries()[j].0
                        != id@ by {
                        if j < k {
                            assert(old(self).entries()[j].0 < old(self).entries()[k as int].0);
                        } else {
                            assert(old(self).entries()[k as int].0 < old(self).entries()[j].0);
                        }
                    }
                    lemma_filter_removes(old(self).entries(), id@, k as int);
                }
            },
            None => {
                proof {
                    assert forall|j: int| 0 <= j < old(self).entries().len() implies old(
                        self,
                    ).entries()[j].0 != id@ by {
                        assert(self.shapes@[j].0@ != id@);
                    }
                    lemma_filter_keeps(old(self).entries(), id@);
                }
            },
        }
    }
}

impl Default for Canvas {
    fn default() -> (r: Canvas)
        ensures
            r.wf(),
            r.entries() == Seq::<Placed>::empty(),
            r.next_id() == 0,
            r.cursor_pos() == (Coord { x: 0, y: 0 }),
    {
        Canvas::new()
    }
}

/// Filtering out an identifier that no entry has leaves the entries as they are.
pub proof fn lemma_filter_keeps(entries: Seq<Placed>, id: nat)
    requires
        forall|j: int| 0 <= j < entries.len() ==> entries[j].0 != id,
    ensures
        without(entries, id) == entries,
    decreases entries.len(),
{
    reveal(Seq::filter);
    if entries.len() > 0 {
        lemma_filter_keeps(entries.drop_last(), id);
        assert(entries.drop_last().push(entries.last()) =~= entries);
    }
}

/// Filtering out the identifier of the one entry that has it removes that entry.
pub proof fn lemma_filter_removes(entries: Seq<Placed>, id: nat, k: int)
    requires
        0 <= k < entries.len(),
        entries[k].0 == id,
        forall|j: int| 0 <= j < entries.len() && j != k ==> entries[j].0 != id,
    ensures
        without(entries, id) == entries.remove(k),
    decreases entries.len(),
{
    reveal(Seq::filter);
    let shorter = entries.drop_last();
    if k == entries.len() - 1 {
        lemma_filter_keeps(shorter, id);
        assert(entries.remove(k) =~= shorter);
    } else {
        lemma_filter_removes(shorter, id, k);
        assert(entries.remove(k) =~= shorter.remove(k).push(entries.last()));
    }
}

} // verus!
