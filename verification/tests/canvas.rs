use diagram_editor::canvas::handler::{scroll, CanvasHandler, Paint};
use diagram_editor::canvas::Canvas;
use diagram_editor::shape::path::Path;
use diagram_editor::shape::rect::Rect;
use diagram_editor::shape::render::Cell;
use diagram_editor::shape::style::Style;
use diagram_editor::shape::text::Text;
use diagram_editor::shape::Shape;
use diagram_editor::util::{Coord, Direction, Id, IdSet, Size};

fn rect(w: u16, h: u16) -> Shape {
    Shape::Rect(Rect::new(Size::new(w, h), Style::Single))
}

fn set_of(ids: &[usize]) -> IdSet {
    let mut set = IdSet::new();
    for n in ids {
        set.insert(&Id::new(*n));
    }
    set
}

fn placed(canvas: &Canvas) -> Vec<(usize, Coord)> {
    (0..canvas.len()).map(|k| {
        let (id, coord, _) = canvas.get(k);
        (id.value(), coord)
    }).collect()
}

#[test]
fn shapes_get_growing_identifiers() {
    let mut canvas = Canvas::default();
    assert_eq!(canvas.len(), 0);
    assert!(canvas.can_add_shape());
    assert_eq!(canvas.add_shape(Coord::new(1, 1), rect(2, 2)).value(), 0);
    assert_eq!(canvas.add_shape(Coord::new(5, 5), rect(3, 3)).value(), 1);
    canvas.delete_shape(Id::new(1));
    // an identifier is not used again
    assert_eq!(canvas.add_shape(Coord::new(0, 0), rect(1, 1)).value(), 2);
    assert_eq!(placed(&canvas), vec![(0, Coord::new(1, 1)), (2, Coord::new(0, 0))]);
    assert!(canvas.contains(Id::new(0)));
    assert!(!canvas.contains(Id::new(1)));
    let (_, _, shape) = canvas.get(1);
    assert_eq!(shape.size(), Size::new(1, 1));
}

#[test]
fn shape_at_finds_the_topmost_shape() {
    let mut canvas = Canvas::new();
    let below = canvas.add_shape(Coord::new(0, 0), rect(4, 4));
    let above = canvas.add_shape(Coord::new(2, 2), rect(4, 4));
    assert_eq!(canvas.shape_at(Coord::new(1, 1)), Some(below));
    assert_eq!(canvas.shape_at(Coord::new(3, 3)), Some(above));
    assert_eq!(canvas.shape_at(Coord::new(5, 5)), Some(above));
    assert_eq!(canvas.shape_at(Coord::new(6, 6)), None);
    assert_eq!(canvas.shape_at(Coord::new(-1, 0)), None);
    canvas.delete_shape(above);
    assert_eq!(canvas.shape_at(Coord::new(3, 3)), Some(below));
    assert_eq!(canvas.shape_at(Coord::new(5, 5)), None);
}

#[test]
fn a_path_is_hit_on_its_line_only() {
    let mut canvas = Canvas::new();
    let path = Path::new(vec![Direction::Right, Direction::Down], false, false, Style::Single);
    let id = canvas.add_shape(Coord::new(3, 3), Shape::Path(path));
    assert_eq!(canvas.shape_at(Coord::new(3, 3)), Some(id));
    assert_eq!(canvas.shape_at(Coord::new(4, 4)), Some(id));
    assert_eq!(canvas.shape_at(Coord::new(3, 4)), None);
}

#[test]
fn shapes_move_and_leave() {
    let mut canvas = Canvas::new();
    let a = canvas.add_shape(Coord::new(1, 1), rect(2, 2));
    let b = canvas.add_shape(Coord::new(5, 5), rect(2, 2));
    canvas.move_shape(a, Direction::Left);
    canvas.move_shape(a, Direction::Up);
    canvas.move_shape(a, Direction::Up);
    canvas.move_shape(b, Direction::Down);
    canvas.move_shape(Id::new(9), Direction::Down);
    assert_eq!(placed(&canvas), vec![(0, Coord::new(0, -1)), (1, Coord::new(5, 6))]);
    canvas.delete_shape(Id::new(9));
    assert_eq!(canvas.len(), 2);
    canvas.delete_shape(a);
    assert_eq!(placed(&canvas), vec![(1, Coord::new(5, 6))]);
}

#[test]
fn canvas_cursor_moves() {
    let mut canvas = Canvas::new();
    assert_eq!(canvas.cursor().coord(), Coord::new(0, 0));
    canvas.move_cursor(Direction::Left);
    canvas.move_cursor(Direction::Down);
    assert_eq!(canvas.cursor().coord(), Coord::new(0, 1));
    canvas.set_cursor(Coord::new(4, 2));
    canvas.move_cursor(Direction::Right);
    assert_eq!(canvas.cursor().coord(), Coord::new(5, 2));
}

#[test]
fn window_follows_the_cursor() {
    // inside the window: no change
    assert_eq!(scroll(0, 0, 10), 0);
    assert_eq!(scroll(9, 0, 10), 0);
    assert_eq!(scroll(5, 3, 10), 3);
    assert_eq!(scroll(12, 3, 10), 3);
    // just outside: the least change that shows the cursor
    assert_eq!(scroll(10, 0, 10), 1);
    assert_eq!(scroll(13, 3, 10), 4);
    assert_eq!(scroll(2, 3, 10), 2);
    assert_eq!(scroll(40, 3, 10), 31);
    assert_eq!(scroll(7, 7, 1), 7);
    assert_eq!(scroll(8, 7, 1), 8);
    // a window without cells
    assert_eq!(scroll(5, 5, 0), 6);
    assert_eq!(scroll(i16::MAX, 0, 0), i16::MAX);
}

#[test]
fn window_is_sticky() {
    let mut handler = CanvasHandler::default();
    handler.set_rendering_size(Size::new(10, 5));
    let mut offsets = Vec::new();
    for _ in 0..12 {
        handler.move_cursor(Direction::Right);
        handler.update_rendering_offset();
        offsets.push(handler.rendering_offset().x);
    }
    assert_eq!(offsets, vec![0, 0, 0, 0, 0, 0, 0, 0, 0, 1, 2, 3]);
    offsets.clear();
    for _ in 0..12 {
        handler.move_cursor(Direction::Left);
        handler.update_rendering_offset();
        offsets.push(handler.rendering_offset().x);
    }
    // the window stays until the cursor leaves it on the left
    assert_eq!(offsets, vec![3, 3, 3, 3, 3, 3, 3, 3, 3, 2, 1, 0]);
    assert_eq!(handler.rendering_size(), Size::new(10, 5));
    assert_eq!(handler.cursor_coord(), Coord::new(0, 0));
    assert_eq!(handler.cursor().coord(), Coord::new(0, 0));
}

#[test]
fn handler_moves_and_deletes_selected_shapes() {
    let mut handler = CanvasHandler::new();
    for n in 0..5 {
        assert!(handler.can_add_shape());
        handler.add_shape(Coord::new(n, n), rect(1, 1));
    }
    handler.move_shapes(&set_of(&[1, 3, 77]), Direction::Right);
    assert_eq!(
        placed(handler.canvas_ref()),
        vec![
            (0, Coord::new(0, 0)),
            (1, Coord::new(2, 1)),
            (2, Coord::new(2, 2)),
            (3, Coord::new(4, 3)),
            (4, Coord::new(4, 4)),
        ]
    );
    handler.delte_shapes(&set_of(&[0, 3, 4, 50]));
    assert_eq!(
        placed(handler.canvas_ref()),
        vec![(1, Coord::new(2, 1)), (2, Coord::new(2, 2))]
    );
    handler.delte_shapes(&IdSet::new());
    assert_eq!(handler.canvas_ref().len(), 2);
}

#[test]
fn handler_finds_the_shape_under_the_cursor() {
    let mut handler = CanvasHandler::new();
    assert!(!handler.cursor_hits_shape());
    assert_eq!(handler.shape_id_under_the_cursor(), None);
    let id = handler.add_shape(Coord::new(1, 0), rect(2, 2));
    assert!(!handler.cursor_hits_shape());
    handler.set_cursor(Coord::new(2, 1));
    assert!(handler.cursor_hits_shape());
    assert_eq!(handler.shape_id_under_the_cursor(), Some(id));
}

fn paint(x: u16, y: u16, ch: char, highlight: bool) -> Paint {
    Paint { cell: Cell { x, y, ch }, highlight }
}

#[test]
fn frame_shows_shapes_in_order_and_the_cursor() {
    let mut handler = CanvasHandler::new();
    handler.add_shape(Coord::new(1, 1), rect(2, 2));
    let marked = handler.add_shape(Coord::new(2, 2), Shape::Text(Text::new("ab".to_string())));
    handler.set_rendering_size(Size::new(6, 4));
    handler.set_shapes_to_highlight(set_of(&[marked.value()]));
    handler.set_additional_shapes(vec![(Coord::new(0, 3), rect(1, 1))]);
    handler.set_cursor(Coord::new(2, 2));
    let scene = handler.render();
    assert_eq!(
        scene.paints,
        vec![
            paint(1, 1, '┌', false),
            paint(2, 1, '┐', false),
            paint(1, 2, '└', false),
            paint(2, 2, '┘', false),
            paint(2, 2, 'a', true),
            paint(3, 2, 'b', true),
            paint(0, 3, '┘', false),
        ]
    );
    assert_eq!(scene.cursor, Some((2, 2)));
    assert_eq!(handler.rendering_offset(), Coord::new(0, 0));
}

#[test]
fn frame_scrolls_with_the_cursor() {
    let mut handler = CanvasHandler::new();
    handler.add_shape(Coord::new(8, 1), rect(2, 2));
    handler.set_rendering_size(Size::new(4, 3));
    handler.set_cursor(Coord::new(9, 1));
    let scene = handler.render();
    // the window moved to columns 6 to 9
    assert_eq!(handler.rendering_offset(), Coord::new(6, 0));
    assert_eq!(
        scene.paints,
        vec![
            paint(2, 1, '┌', false),
            paint(3, 1, '┐', false),
            paint(2, 2, '└', false),
            paint(3, 2, '┘', false),
        ]
    );
    assert_eq!(scene.cursor, Some((3, 1)));
    handler.set_rendering_size(Size::new(0, 0));
    let nothing = handler.render();
    assert!(nothing.paints.is_empty());
    assert_eq!(nothing.cursor, None);
}
