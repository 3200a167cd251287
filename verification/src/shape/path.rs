use super::grid::{
    blank_grid, blank_rows, grid_view, is_grid, join, join_rows, lemma_put_is_grid, put, put_cell,
};
use crate::util::chars::collect_string;
use super::style::{Chips, Style};
use crate::util::coord::Coord;
use crate::util::direction::Direction;
use crate::util::size::Size;
use vstd::prelude::*;

verus! {

/// The largest distance between the extreme columns (or rows) that a path may
/// reach: its bounding box then still fits signed 16-bit coordinates.
pub const PATH_SPAN_MAX: i32 = 32766;

/// Where a walk along a step sequence stands, and how far it has strayed
/// from its origin on each side.
pub ghost struct Walk {
    pub cur_x: int,
    pub cur_y: int,
    pub min_x: int,
    pub max_x: int,
    pub min_y: int,
    pub max_y: int,
}

impl Walk {
    /// The walk that has not left the origin.
    pub open spec fn start() -> Walk {
        Walk { cur_x: 0, cur_y: 0, min_x: 0, max_x: 0, min_y: 0, max_y: 0 }
    }

    /// The walk after one more step in direction `d`.
    pub open spec fn step(self, d: Direction) -> Walk {
        let x = self.cur_x + d.dx();
        let y = self.cur_y + d.dy();
        Walk {
            cur_x: x,
            cur_y: y,
            min_x: if x < self.min_x { x } else { self.min_x },
            max_x: if x > self.max_x { x } else { self.max_x },
            min_y: if y < self.min_y { y } else { self.min_y },
            max_y: if y > self.max_y { y } else { self.max_y },
        }
    }

    /// The walk along all of `steps`, starting at the origin.
    pub open spec fn of(steps: Seq<Direction>) -> Walk
        decreases steps.len(),
    {
        if steps.len() == 0 {
            Walk::start()
        } else {
            Walk::of(steps.drop_last()).step(steps.last())
        }
    }

    /// Width of the bounding box of the walk.
    pub open spec fn width(self) -> int {
        self.max_x - self.min_x + 1
    }

    /// Height of the bounding box of the walk.
    pub open spec fn height(self) -> int {
        self.max_y - self.min_y + 1
    }

    /// The bounding box is small enough for 16-bit coordinates.
    pub open spec fn fits(self) -> bool {
        self.max_x - self.min_x <= PATH_SPAN_MAX && self.max_y - self.min_y <= PATH_SPAN_MAX
    }

    /// The extremes enclose the origin and the current position.
    pub open spec fn ordered(self) -> bool {
        &&& self.min_x <= 0 <= self.max_x
        &&& self.min_y <= 0 <= self.max_y
        &&& self.min_x <= self.cur_x <= self.max_x
        &&& self.min_y <= self.cur_y <= self.max_y
    }
}

/// Position reached after the first `k` steps of `steps`, column first.
pub open spec fn position(steps: Seq<Direction>, k: int) -> (int, int) {
    let w = Walk::of(steps.take(k));
    (w.cur_x, w.cur_y)
}

/// Whether a path along `steps` has a bounding box within the limits.
pub open spec fn steps_fit(steps: Seq<Direction>) -> bool {
    Walk::of(steps).fits()
}

pub proof fn lemma_walk_ordered(steps: Seq<Direction>)
    ensures
        Walk::of(steps).ordered(),
    decreases steps.len(),
{
    if steps.len() > 0 {
        lemma_walk_ordered(steps.drop_last());
    }
}

/// A walk along a prefix stays inside the bounding box of the whole walk,
/// and its own box is no larger.
pub proof fn lemma_prefix_inside(steps: Seq<Direction>, k: int)
    requires
        0 <= k <= steps.len(),
    ensures
        Walk::of(steps).min_x <= Walk::of(steps.take(k)).min_x,
        Walk::of(steps.take(k)).max_x <= Walk::of(steps).max_x,
        Walk::of(steps).min_y <= Walk::of(steps.take(k)).min_y,
        Walk::of(steps.take(k)).max_y <= Walk::of(steps).max_y,
        Walk::of(steps.take(k)).ordered(),
        steps_fit(steps) ==> steps_fit(steps.take(k)),
    decreases steps.len(),
{
    lemma_walk_ordered(steps.take(k));
    if k == steps.len() {
        assert(steps.take(k) =~= steps);
    } else {
        let shorter = steps.drop_last();
        lemma_prefix_inside(shorter, k);
        assert(shorter.take(k) =~= steps.take(k));
    }
}

/// The glyph that joins a step in direction `before` to a step in direction `d`.
pub open spec fn joint_chip(chips: Chips, before: Direction, d: Direction) -> char {
    match (before, d) {
        (Direction::Up, Direction::Up)
        | (Direction::Up, Direction::Down)
        | (Direction::Down, Direction::Up)
        | (Direction::Down, Direction::Down) => chips.vertical,
        (Direction::Left, Direction::Left)
        | (Direction::Left, Direction::Right)
        | (Direction::Right, Direction::Left)
        | (Direction::Right, Direction::Right) => chips.horizontal,
        (Direction::Up, Direction::Left) | (Direction::Right, Direction::Down) => {
            chips.upper_right_corner
        },
        (Direction::Up, Direction::Right) | (Direction::Left, Direction::Down) => {
            chips.upper_left_corner
        },
        (Direction::Down, Direction::Left) | (Direction::Right, Direction::Up) => {
            chips.lower_right_corner
        },
        (Direction::Down, Direction::Right) | (Direction::Left, Direction::Up) => {
            chips.lower_left_corner
        },
    }
}

/// The arrow head drawn on the first cell of a path whose first step is `first`:
/// it points back, away from the path.
pub open spec fn start_arrow_chip(chips: Chips, first: Direction) -> char {
    match first {
        Direction::Up => chips.down_arrow,
        Direction::Down => chips.up_arrow,
        Direction::Left => chips.right_arrow,
        Direction::Right => chips.left_arrow,
    }
}

/// The arrow head drawn on the last cell of a path whose last step is `last`.
pub open spec fn end_arrow_chip(chips: Chips, last: Direction) -> char {
    match last {
        Direction::Up => chips.up_arrow,
        Direction::Down => chips.down_arrow,
        Direction::Left => chips.left_arrow,
        Direction::Right => chips.right_arrow,
    }
}

/// The glyph written on the `k`-th cell that the path visits, `0 <= k <= steps.len()`:
/// the joint of the step that arrives there and the one that leaves. The first
/// cell has no arriving step and the last no leaving one; each takes the other.
pub open spec fn line_chip(steps: Seq<Direction>, chips: Chips, k: int) -> char {
    let before = if k == 0 {
        steps[0]
    } else {
        steps[k - 1]
    };
    let d = if k == steps.len() {
        steps[k - 1]
    } else {
        steps[k]
    };
    joint_chip(chips, before, d)
}

/// The grid after the line glyphs of the first `k` visited cells are written,
/// later cells over earlier ones.
pub open spec fn line_grid(steps: Seq<Direction>, chips: Chips, k: int) -> Seq<Seq<char>>
    decreases k,
{
    let w = Walk::of(steps);
    if k <= 0 {
        blank_grid(w.width(), w.height())
    } else {
        let (px, py) = position(steps, k - 1);
        put(line_grid(steps, chips, k - 1), px - w.min_x, py - w.min_y, line_chip(steps, chips, k - 1))
    }
}

/// The glyph grid of a path: nothing for the empty path; else the line along
/// all visited cells, with the arrow heads, where asked for, over its two ends.
pub open spec fn path_rows(
    steps: Seq<Direction>,
    chips: Chips,
    start_arrow: bool,
    end_arrow: bool,
) -> Seq<Seq<char>> {
    if steps.len() == 0 {
        Seq::empty()
    } else {
        let w = Walk::of(steps);
        let n = steps.len() as int;
        let lines = line_grid(steps, chips, n + 1);
        let with_start = if start_arrow {
            put(lines, -w.min_x, -w.min_y, start_arrow_chip(chips, steps[0]))
        } else {
            lines
        };
        if end_arrow {
            put(with_start, w.cur_x - w.min_x, w.cur_y - w.min_y, end_arrow_chip(chips, steps[n - 1]))
        } else {
            with_start
        }
    }
}

/// Whether the point `(x, y)`, in the coordinates of the bounding box, lies on
/// the polyline of the path.
pub open spec fn on_polyline(steps: Seq<Direction>, x: int, y: int) -> bool {
    let w = Walk::of(steps);
    exists|k: int|
        0 <= k <= steps.len() && #[trigger] position(steps, k) == (x + w.min_x, y + w.min_y)
}

/// The next arrow configuration (start, end) in the cycle
/// none, end only, start only, both, none.
pub open spec fn next_arrow_state(start: bool, end: bool) -> (bool, bool) {
    match (start, end) {
        (true, true) => (false, false),
        (true, false) => (true, true),
        (false, true) => (true, false),
        (false, false) => (false, true),
    }
}

/// An orthogonal path: unit steps from an origin, with a line style and an
/// optional arrow head at either end. Its bounding box, and where the origin
/// lies in it, are derived from the steps.
#[derive(PartialEq, Eq, Hash, Debug)]
pub struct Path {
    path: Vec<Direction>,
    size: Size,
    start_to_upper_left: Coord,
    line_style: Style,
    has_start_arrow: bool,
    has_end_arrow: bool,
}

/// What a path is: its steps and its looks.
pub ghost struct PathView {
    pub steps: Seq<Direction>,
    pub line_style: Style,
    pub has_start_arrow: bool,
    pub has_end_arrow: bool,
}

impl View for Path {
    type V = PathView;

    closed spec fn view(&self) -> PathView {
        PathView {
            steps: self.path@,
            line_style: self.line_style,
            has_start_arrow: self.has_start_arrow,
            has_end_arrow: self.has_end_arrow,
        }
    }
}

impl PathView {
    /// Bounding box of the path.
    pub open spec fn size(self) -> Size {
        let w = Walk::of(self.steps);
        Size { width: w.width() as u16, height: w.height() as u16 }
    }

    /// Offset from the origin of the path to the upper left corner of its
    /// bounding box: never positive.
    pub open spec fn start_to_upper_left(self) -> Coord {
        let w = Walk::of(self.steps);
        Coord { x: w.min_x as i16, y: w.min_y as i16 }
    }

    /// The glyph grid of the path.
    pub open spec fn rows(self) -> Seq<Seq<char>> {
        path_rows(
            self.steps,
            self.line_style.spec_chips(),
            self.has_start_arrow,
            self.has_end_arrow,
        )
    }

    /// Whether the cell in column `x` of row `y` of the bounding box lies on
    /// the path.
    pub open spec fn hit_at(self, x: int, y: int) -> bool {
        on_polyline(self.steps, x, y)
    }

    /// Whether the point `c`, relative to the upper left corner of the
    /// bounding box, lies on the path.
    pub open spec fn hit(self, c: Coord) -> bool {
        self.hit_at(c.x as int, c.y as int)
    }

    /// The path with one more step.
    pub open spec fn push(self, dir: Direction) -> PathView {
        PathView { steps: self.steps.push(dir), ..self }
    }

    /// The path without its last step.
    pub open spec fn pop(self) -> PathView {
        PathView { steps: self.steps.drop_last(), ..self }
    }
}

/// The path `p` after the steps `more` are pushed onto it, one by one.
pub open spec fn pushed_all(p: PathView, more: Seq<Direction>) -> PathView
    decreases more.len(),
{
    if more.len() == 0 {
        p
    } else {
        pushed_all(p, more.drop_last()).push(more.last())
    }
}

/// The path `p` after `n` pops, and the steps that the pops return, in the
/// order in which they come. A pop of the empty path changes and returns
/// nothing.
pub open spec fn popped(p: PathView, n: nat) -> (PathView, Seq<Direction>)
    decreases n,
{
    if n == 0 || p.steps.len() == 0 {
        (p, Seq::empty())
    } else {
        let (rest, steps) = popped(p.pop(), (n - 1) as nat);
        (rest, seq![p.steps.last()] + steps)
    }
}

/// For any steps pushed onto a path, as many pops return them in reverse
/// order, and leave the path as it was before the first push: its steps, its
/// bounding box and the offset of its origin.
pub proof fn lemma_pops_undo_pushes(p: PathView, more: Seq<Direction>)
    ensures
        popped(pushed_all(p, more), more.len()).0 == p,
        popped(pushed_all(p, more), more.len()).1 == more.reverse(),
        popped(pushed_all(p, more), more.len()).0.size() == p.size(),
        popped(pushed_all(p, more), more.len()).0.start_to_upper_left() == p.start_to_upper_left(),
    decreases more.len(),
{
    if more.len() > 0 {
        let shorter = more.drop_last();
        let q = pushed_all(p, shorter);
        lemma_pops_undo_pushes(p, shorter);
        assert(q.steps.push(more.last()).drop_last() =~= q.steps);
        assert(q.push(more.last()).pop() == q);
        assert(q.push(more.last()).steps.last() == more.last());
        assert(seq![more.last()] + shorter.reverse() =~= more.reverse());
    } else {
        assert(more.reverse() =~= Seq::<Direction>::empty());
    }
}

impl Clone for Path {
    fn clone(&self) -> (r: Path)
        ensures
            r@ == self@,
            self.wf() ==> r.wf(),
    {
        let mut steps: Vec<Direction> = Vec::new();
        let mut i: usize = 0;
        while i < self.path.len()
            invariant
                i <= self.path.len(),
                steps@ == self.path@.take(i as int),
            decreases self.path.len() - i,
        {
            steps.push(self.path[i]);
            i += 1;
        }
        assert(self.path@.take(self.path.len() as int) =~= self.path@);
        Path {
            path: steps,
            size: self.size,
            start_to_upper_left: self.start_to_upper_left,
            line_style: self.line_style,
            has_start_arrow: self.has_start_arrow,
            has_end_arrow: self.has_end_arrow,
        }
    }
}

/// The extremes of a walk in machine integers.
struct Extent {
    cur_x: i32,
    cur_y: i32,
    min_x: i32,
    max_x: i32,
    min_y: i32,
    max_y: i32,
}

impl View for Extent {
    type V = Walk;

    closed spec fn view(&self) -> Walk {
        Walk {
            cur_x: self.cur_x as int,
            cur_y: self.cur_y as int,
            min_x: self.min_x as int,
            max_x: self.max_x as int,
            min_y: self.min_y as int,
            max_y: self.max_y as int,
        }
    }
}

impl Extent {
    fn start() -> (r: Extent)
        ensures
            r@ == Walk::start(),
    {
        Extent { cur_x: 0, cur_y: 0, min_x: 0, max_x: 0, min_y: 0, max_y: 0 }
    }

    fn step(&self, d: Direction) -> (r: Extent)
        requires
            self@.fits(),
            self@.ordered(),
        ensures
            r@ == self@.step(d),
    {
        let (x, y) = match d {
            Direction::Up => (self.cur_x, self.cur_y - 1),
            Direction::Down => (self.cur_x, self.cur_y + 1),
            Direction::Left => (self.cur_x - 1, self.cur_y),
            Direction::Right => (self.cur_x + 1, self.cur_y),
        };
        Extent {
            cur_x: x,
            cur_y: y,
            min_x: if x < self.min_x { x } else { self.min_x },
            max_x: if x > self.max_x { x } else { self.max_x },
            min_y: if y < self.min_y { y } else { self.min_y },
            max_y: if y > self.max_y { y } else { self.max_y },
        }
    }

    fn fits(&self) -> (r: bool)
        requires
            -0x10000 <= self.min_x <= self.max_x <= 0x10000,
            -0x10000 <= self.min_y <= self.max_y <= 0x10000,
        ensures
            r == self@.fits(),
    {
        self.max_x - self.min_x <= PATH_SPAN_MAX && self.max_y - self.min_y <= PATH_SPAN_MAX
    }

    /// The walk along `path`, or `None` as soon as it leaves the limits.
    fn along(path: &Vec<Direction>) -> (r: Option<Extent>)
        ensures
            r is Some <==> steps_fit(path@),
            r matches Some(e) ==> e@ == Walk::of(path@),
    {
        let mut e = Extent::start();
        let mut i: usize = 0;
        assert(path@.take(0) =~= Seq::<Direction>::empty());
        while i < path.len()
            invariant
                i <= path.len(),
                e@ == Walk::of(path@.take(i as int)),
                e@.fits(),
            decreases path.len() - i,
        {
            proof {
                lemma_walk_ordered(path@.take(i as int));
                lemma_prefix_inside(path@, i as int + 1);
                assert(path@.take(i as int + 1).drop_last() =~= path@.take(i as int));
            }
            e = e.step(path[i]);
            if !e.fits() {
                return None;
            }
            i += 1;
        }
        assert(path@.take(path.len() as int) =~= path@);
        Some(e)
    }
}

/// The glyph that joins a step in direction `before` to a step in direction `d`.
fn joint(chips: &Chips, before: Direction, d: Direction) -> (c: char)
    ensures
        c == joint_chip(*chips, before, d),
{
    match (before, d) {
        (Direction::Up, Direction::Up)
        | (Direction::Up, Direction::Down)
        | (Direction::Down, Direction::Up)
        | (Direction::Down, Direction::Down) => chips.vertical,
        (Direction::Left, Direction::Left)
        | (Direction::Left, Direction::Right)
        | (Direction::Right, Direction::Left)
        | (Direction::Right, Direction::Right) => chips.horizontal,
        (Direction::Up, Direction::Left) | (Direction::Right, Direction::Down) => {
            chips.upper_right_corner
        },
        (Direction::Up, Direction::Right) | (Direction::Left, Direction::Down) => {
            chips.upper_left_corner
        },
        (Direction::Down, Direction::Left) | (Direction::Right, Direction::Up) => {
            chips.lower_right_corner
        },
        (Direction::Down, Direction::Right) | (Direction::Left, Direction::Up) => {
            chips.lower_left_corner
        },
    }
}

/// Moves `(x, y)` one step in direction `d`.
fn advance(x: i32, y: i32, d: Direction) -> (r: (i32, i32))
    requires
        -0x10000 <= x <= 0x10000,
        -0x10000 <= y <= 0x10000,
    ensures
        r.0 == x + d.dx(),
        r.1 == y + d.dy(),
{
    match d {
        Direction::Up => (x, y - 1),
        Direction::Down => (x, y + 1),
        Direction::Left => (x - 1, y),
        Direction::Right => (x + 1, y),
    }
}

/// The position after `k + 1` steps is one step from the position after `k`.
pub proof fn lemma_position_step(steps: Seq<Direction>, k: int)
    requires
        0 <= k < steps.len(),
    ensures
        position(steps, k + 1) == (
            position(steps, k).0 + steps[k].dx(),
            position(steps, k).1 + steps[k].dy(),
        ),
{
    assert(steps.take(k + 1).drop_last() =~= steps.take(k));
}

/// Before any step the walk stands at the origin.
pub proof fn lemma_position_origin(steps: Seq<Direction>)
    ensures
        position(steps, 0) == (0int, 0int),
{
    assert(steps.take(0) =~= Seq::<Direction>::empty());
}

impl Path {
    /// The steps fit the limits, and the cached bounding box is the one that
    /// the steps give.
    pub closed spec fn wf(&self) -> bool {
        &&& steps_fit(self.path@)
        &&& self.size == self@.size()
        &&& self.start_to_upper_left == self@.start_to_upper_left()
    }

    /// Whether a path along `path` stays within the limits on its bounding box.
    pub fn within_limits(path: &Vec<Direction>) -> (r: bool)
        ensures
            r == steps_fit(path@),
    {
        Extent::along(path).is_some()
    }

    /// Bounding box and origin offset of a path along `path`.
    pub fn calc_size_and_start_to_upper_left(path: &Vec<Direction>) -> (r: (Size, Coord))
        requires
            steps_fit(path@),
        ensures
            r.0.width == Walk::of(path@).width(),
            r.0.height == Walk::of(path@).height(),
            r.1.x == Walk::of(path@).min_x,
            r.1.y == Walk::of(path@).min_y,
    {
        proof {
            lemma_walk_ordered(path@);
        }
        match Extent::along(path) {
            Some(e) => {
                let size = Size::new(
                    (e.max_x - e.min_x + 1) as u16,
                    (e.max_y - e.min_y + 1) as u16,
                );
                (size, Coord::new(e.min_x as i16, e.min_y as i16))
            },
            None => (Size::new(1, 1), Coord::new(0, 0)),
        }
    }

    pub fn new(
        path: Vec<Direction>,
        has_start_arrow: bool,
        has_end_arrow: bool,
        line_style: Style,
    ) -> (r: Path)
        requires
            steps_fit(path@),
        ensures
            r.wf(),
            r@ == (PathView { steps: path@, line_style, has_start_arrow, has_end_arrow }),
    {
        proof {
            lemma_walk_ordered(path@);
        }
        let (size, start_to_upper_left) = Self::calc_size_and_start_to_upper_left(&path);
        Path { path, size, start_to_upper_left, line_style, has_start_arrow, has_end_arrow }
    }

    pub fn is_empty(&self) -> (r: bool)
        ensures
            r == (self@.steps.len() == 0),
    {
        self.path.len() == 0
    }

    /// Whether one more step in direction `dir` keeps the path within the limits.
    pub fn can_push(&self, dir: Direction) -> (r: bool)
        requires
            self.wf(),
        ensures
            r == steps_fit(self@.steps.push(dir)),
    {
        proof {
            lemma_walk_ordered(self.path@);
            assert(self.path@.push(dir).drop_last() =~= self.path@);
        }
        match Extent::along(&self.path) {
            Some(e) => {
                let next = e.step(dir);
                next.fits()
            },
            None => false,
        }
    }

    /// Appends one step and recomputes the bounding box.
    pub fn push_path(&mut self, dir: Direction)
        requires
            old(self).wf(),
            steps_fit(old(self)@.steps.push(dir)),
        ensures
            final(self).wf(),
            final(self)@ == old(self)@.push(dir),
    {
        self.path.push(dir);
        proof {
            lemma_walk_ordered(self.path@);
        }
        let (size, start_to_upper_left) = Self::calc_size_and_start_to_upper_left(&self.path);
        self.size = size;
        self.start_to_upper_left = start_to_upper_left;
    }

    /// Removes the last step, if there is one, and recomputes the bounding box.
    pub fn pop_path(&mut self) -> (r: Option<Direction>)
        requires
            old(self).wf(),
        ensures
            final(self).wf(),
            old(self)@.steps.len() == 0 ==> r is None && final(self)@ == old(self)@,
            old(self)@.steps.len() > 0 ==> r == Some(old(self)@.steps.last()) && final(self)@
                == old(self)@.pop(),
    {
        let popped = self.path.pop();
        match popped {
            Some(d) => {
                proof {
                    lemma_prefix_inside(old(self).path@, old(self).path@.len() - 1);
                    assert(old(self).path@.take(old(self).path@.len() - 1) =~= self.path@);
                    assert(self.path@ =~= old(self).path@.drop_last());
                    lemma_walk_ordered(self.path@);
                }
                let (size, start_to_upper_left) = Self::calc_size_and_start_to_upper_left(
                    &self.path,
                );
                self.size = size;
                self.start_to_upper_left = start_to_upper_left;
                Some(d)
            },
            None => None,
        }
    }

    pub fn set_next_line_style(&mut self)
        ensures
            final(self)@ == (PathView { line_style: old(self)@.line_style.spec_next(), ..old(self)@ }),
            old(self).wf() ==> final(self).wf(),
    {
        self.line_style = self.line_style.next();
    }

    pub fn set_next_arrow_state(&mut self)
        ensures
            final(self)@ == (PathView {
                has_start_arrow: next_arrow_state(
                    old(self)@.has_start_arrow,
                    old(self)@.has_end_arrow,
                ).0,
                has_end_arrow: next_arrow_state(
                    old(self)@.has_start_arrow,
                    old(self)@.has_end_arrow,
                ).1,
                ..old(self)@
            }),
            old(self).wf() ==> final(self).wf(),
    {
        let (s, e) = match (self.has_start_arrow, self.has_end_arrow) {
            (true, true) => (false, false),
            (true, false) => (true, true),
            (false, true) => (true, false),
            (false, false) => (false, true),
        };
        self.has_start_arrow = s;
        self.has_end_arrow = e;
    }

    pub fn start_to_upper_left(&self) -> (r: Coord)
        requires
            self.wf(),
        ensures
            r == self@.start_to_upper_left(),
            r.x == Walk::of(self@.steps).min_x,
            r.y == Walk::of(self@.steps).min_y,
    {
        proof {
            lemma_walk_ordered(self.path@);
        }
        self.start_to_upper_left
    }

    pub fn size(&self) -> (r: Size)
        requires
            self.wf(),
        ensures
            r == self@.size(),
            r.width == Walk::of(self@.steps).width(),
            r.height == Walk::of(self@.steps).height(),
    {
        proof {
            lemma_walk_ordered(self.path@);
        }
        self.size
    }

    /// A path is transparent: only its line is drawn.
    pub fn fill(&self) -> (r: bool)
        ensures
            !r,
    {
        false
    }

    /// Return true if the coord is on the path.
    pub fn hit(&self, coord: Coord) -> (r: bool)
        requires
            self.wf(),
        ensures
            r == self@.hit(coord),
    {
        let ghost steps = self.path@;
        let ghost w = Walk::of(steps);
        proof {
            lemma_walk_ordered(steps);
            lemma_position_origin(steps);
            lemma_prefix_inside(steps, 0);
        }
        let mut x: i32 = -(self.start_to_upper_left.x as i32);
        let mut y: i32 = -(self.start_to_upper_left.y as i32);
        let mut k: usize = 0;
        while k < self.path.len()
            invariant
                k <= self.path.len(),
                steps == self.path@,
                w == Walk::of(steps),
                steps_fit(steps),
                w.ordered(),
                x == position(steps, k as int).0 - w.min_x,
                y == position(steps, k as int).1 - w.min_y,
                0 <= x <= PATH_SPAN_MAX,
                0 <= y <= PATH_SPAN_MAX,
                forall|j: int|
                    0 <= j < k ==> #[trigger] position(steps, j) != (
                        coord.x + w.min_x,
                        coord.y + w.min_y,
                    ),
            decreases self.path.len() - k,
        {
            if x == coord.x as i32 && y == coord.y as i32 {
                assert(position(steps, k as int) == (coord.x + w.min_x, coord.y + w.min_y));
                return true;
            }
            proof {
                lemma_position_step(steps, k as int);
                lemma_prefix_inside(steps, k as int + 1);
            }
            let (nx, ny) = advance(x, y, self.path[k]);
            x = nx;
            y = ny;
            k += 1;
        }
        let found = x == coord.x as i32 && y == coord.y as i32;
        proof {
            if found {
                assert(position(steps, k as int) == (coord.x + w.min_x, coord.y + w.min_y));
            }
        }
        found
    }

    /// The glyph grid of the path, row by row.
    pub fn rows(&self) -> (r: Vec<Vec<char>>)
        requires
            self.wf(),
        ensures
            grid_view(r@) == self@.rows(),
    {
        if self.path.len() == 0 {
            let empty: Vec<Vec<char>> = Vec::new();
            assert(grid_view(empty@) =~= Seq::<Seq<char>>::empty());
            return empty;
        }
        let ghost steps = self.path@;
        let ghost w = Walk::of(steps);
        proof {
            lemma_walk_ordered(steps);
            lemma_position_origin(steps);
            lemma_prefix_inside(steps, 0);
        }
        let chips = self.line_style.chips();
        let n = self.path.len();
        let width = self.size.width as usize;
        let height = self.size.height as usize;
        let mut grid = blank_rows(width, height);
        let origin_x: i32 = -(self.start_to_upper_left.x as i32);
        let origin_y: i32 = -(self.start_to_upper_left.y as i32);
        let mut x: i32 = origin_x;
        let mut y: i32 = origin_y;
        let mut before = self.path[0];
        let mut k: usize = 0;
        while k < n
            invariant
                k <= n,
                n == self.path.len(),
                n > 0,
                steps == self.path@,
                w == Walk::of(steps),
                steps_fit(steps),
                w.ordered(),
                chips == self.line_style.spec_chips(),
                width == w.width(),
                height == w.height(),
                x == position(steps, k as int).0 - w.min_x,
                y == position(steps, k as int).1 - w.min_y,
                0 <= x < width,
                0 <= y < height,
                before == if k == 0 { steps[0] } else { steps[k as int - 1] },
                grid_view(grid@) == line_grid(steps, chips, k as int),
                is_grid(grid_view(grid@), width as int, height as int),
            decreases n - k,
        {
            let d = self.path[k];
            let chip = joint(&chips, before, d);
            proof {
                lemma_position_step(steps, k as int);
                lemma_prefix_inside(steps, k as int + 1);
                lemma_put_is_grid(grid_view(grid@), width as int, height as int, x as int, y as int, chip);
                assert(grid_view(grid@)[y as int] == grid@[y as int]@);
            }
            put_cell(&mut grid, x as usize, y as usize, chip);
            let (nx, ny) = advance(x, y, d);
            x = nx;
            y = ny;
            before = d;
            k += 1;
        }
        let last = self.path[n - 1];
        let chip = joint(&chips, last, last);
        proof {
            lemma_put_is_grid(grid_view(grid@), width as int, height as int, x as int, y as int, chip);
            assert(grid_view(grid@)[y as int] == grid@[y as int]@);
            assert(steps.take(n as int) =~= steps);
        }
        put_cell(&mut grid, x as usize, y as usize, chip);
        assert(grid_view(grid@) == line_grid(steps, chips, n as int + 1));
        if self.has_start_arrow {
            let arrow = match self.path[0] {
                Direction::Up => chips.down_arrow,
                Direction::Down => chips.up_arrow,
                Direction::Left => chips.right_arrow,
                Direction::Right => chips.left_arrow,
            };
            proof {
                lemma_put_is_grid(grid_view(grid@), width as int, height as int, origin_x as int, origin_y as int, arrow);
                assert(grid_view(grid@)[origin_y as int] == grid@[origin_y as int]@);
            }
            put_cell(&mut grid, origin_x as usize, origin_y as usize, arrow);
        }
        if self.has_end_arrow {
            let arrow = match last {
                Direction::Up => chips.up_arrow,
                Direction::Down => chips.down_arrow,
                Direction::Left => chips.left_arrow,
                Direction::Right => chips.right_arrow,
            };
            proof {
                assert(grid_view(grid@)[y as int] == grid@[y as int]@);
            }
            put_cell(&mut grid, x as usize, y as usize, arrow);
        }
        grid
    }

    /// The glyph grid as text: each row followed by a line feed; empty for a
    /// path without steps.
    pub fn to_string(&self) -> (r: String)
        requires
            self.wf(),
        ensures
            r@ == join_rows(self@.rows()),
    {
        let rows = self.rows();
        let text = join(&rows);
        collect_string(&text)
    }
}

} // verus!
