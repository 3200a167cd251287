use diagram_editor::canvas::handler::CanvasHandler;
use diagram_editor::editor::{apply, App, AppOp};
use diagram_editor::keybind::{Event, KeyCode, KeyEvent, KeyModifiers, KeySequence};
use diagram_editor::mode::command::CmdMode;
use diagram_editor::mode::dummy::DummyMode;
use diagram_editor::mode::make_path::MakePathMode;
use diagram_editor::mode::make_rect::{rect_from_corners, MakeRectMode, Op};
use diagram_editor::mode::make_text::{add_columns, sub_columns, MakeTextMode};
use diagram_editor::mode::normal::NormalMode;
use diagram_editor::mode::select::SelectMode;
use diagram_editor::mode::{key_of, movement_of, Mode, ModeHandler};
use diagram_editor::shape::path::Path;
use diagram_editor::shape::rect::Rect;
use diagram_editor::shape::style::Style;
use diagram_editor::shape::text::Text;
use diagram_editor::shape::Shape;
use diagram_editor::util::{Coord, Direction, Id, IdSet, Size};

fn ch(c: char) -> Event {
    Event::Key(KeyEvent::new(KeyCode::Char(c), KeyModifiers::empty()))
}

fn code(c: KeyCode) -> Event {
    Event::Key(KeyEvent::new(c, KeyModifiers::empty()))
}

fn type_keys(app: &mut App, keys: &str) {
    for c in keys.chars() {
        assert!(!app.handle_event(ch(c)));
    }
}

fn shapes(app: &App) -> Vec<(usize, Coord, Shape)> {
    let canvas = app.canvas_handler().canvas_ref();
    (0..canvas.len()).map(|k| {
        let (id, coord, shape) = canvas.get(k);
        (id.value(), coord, shape.clone())
    }).collect()
}

fn cursor(app: &App) -> Coord {
    app.canvas_handler().cursor_coord()
}

fn members(set: &IdSet) -> Vec<usize> {
    set.to_vec().iter().map(|id| id.value()).collect()
}

#[test]
fn rectangle_from_start_to_finish() {
    let mut app = App::new();
    assert!(matches!(app.mode_ref(), Mode::Normal(_)));
    assert_eq!(cursor(&app), Coord::new(0, 0));
    assert!(!app.handle_event(ch('r')));
    assert!(matches!(app.mode_ref(), Mode::MakeRect(_)));
    type_keys(&mut app, "llj");
    assert_eq!(cursor(&app), Coord::new(2, 1));
    assert!(!app.handle_event(code(KeyCode::Enter)));
    assert!(matches!(app.mode_ref(), Mode::Normal(_)));
    assert_eq!(
        shapes(&app),
        vec![(0, Coord::new(0, 0), Shape::Rect(Rect::new(Size::new(3, 2), Style::Single)))]
    );
}

#[test]
fn normal_mode_moves_the_cursor_and_enters_modes() {
    let mut app = App::default();
    type_keys(&mut app, "lljjjhk");
    assert_eq!(cursor(&app), Coord::new(1, 2));
    type_keys(&mut app, "xyz0 ");
    app.handle_event(Event::Other);
    app.handle_event(code(KeyCode::Enter));
    app.handle_event(code(KeyCode::Esc));
    assert!(matches!(app.mode_ref(), Mode::Normal(_)));
    assert_eq!(cursor(&app), Coord::new(1, 2));
    assert!(shapes(&app).is_empty());
    app.handle_event(ch('p'));
    assert!(matches!(app.mode_ref(), Mode::MakePath(_)));
    app.handle_event(code(KeyCode::Enter));
    app.handle_event(ch('t'));
    assert!(matches!(app.mode_ref(), Mode::MakeText(_)));
    app.handle_event(code(KeyCode::Esc));
    app.handle_event(ch(':'));
    assert!(matches!(app.mode_ref(), Mode::Command(_)));
    assert_eq!(app.mode_ref().status_msg(), ":");
    // an upper-case letter is another key
    let mut other = App::new();
    other.handle_event(ch('R'));
    assert!(matches!(other.mode_ref(), Mode::Normal(_)));
}

#[test]
fn command_mode_quits_on_q() {
    let mut app = App::new();
    app.handle_event(ch(':'));
    assert!(!app.handle_event(ch('q')));
    assert_eq!(app.mode_ref().status_msg(), ":q");
    assert!(app.handle_event(code(KeyCode::Enter)));
    assert!(matches!(app.mode_ref(), Mode::Normal(_)));
}

#[test]
fn command_mode_discards_other_commands() {
    let mut app = App::new();
    app.handle_event(ch(':'));
    type_keys(&mut app, "wq");
    app.handle_event(code(KeyCode::Up));
    app.handle_event(Event::Other);
    assert_eq!(app.mode_ref().status_msg(), ":wq");
    assert!(!app.handle_event(code(KeyCode::Enter)));
    assert!(matches!(app.mode_ref(), Mode::Normal(_)));
    app.handle_event(ch(':'));
    type_keys(&mut app, "qq");
    assert!(!app.handle_event(code(KeyCode::Enter)));
}

#[test]
fn command_mode_backspace_leaves_at_the_empty_line() {
    let mut app = App::new();
    app.handle_event(ch(':'));
    app.handle_event(ch('a'));
    app.handle_event(code(KeyCode::Backspace));
    assert_eq!(app.mode_ref().status_msg(), ":");
    assert!(matches!(app.mode_ref(), Mode::Command(_)));
    app.handle_event(code(KeyCode::Backspace));
    assert!(matches!(app.mode_ref(), Mode::Normal(_)));
    assert_eq!(CmdMode::new().cmd(), ":");
    assert_eq!(CmdMode::default().status_msg(), ":");
}

#[test]
fn rectangle_spans_from_start_to_cursor() {
    let mut app = App::new();
    type_keys(&mut app, "lllljjj");
    app.handle_event(ch('r'));
    // up and to the left of the start
    type_keys(&mut app, "hhk");
    let preview = app.mode_ref().additinal_canvas_shapes(cursor(&app));
    assert_eq!(
        preview,
        vec![(Coord::new(2, 2), Shape::Rect(Rect::new(Size::new(3, 2), Style::Single)))]
    );
    app.handle_event(ch('s'));
    app.handle_event(ch('s'));
    app.handle_event(ch('x'));
    app.handle_event(code(KeyCode::Enter));
    assert_eq!(
        shapes(&app),
        vec![(0, Coord::new(2, 2), Shape::Rect(Rect::new(Size::new(3, 2), Style::Double)))]
    );
    assert_eq!(cursor(&app), Coord::new(2, 2));
}

#[test]
fn rectangle_from_two_corners() {
    assert_eq!(
        rect_from_corners(Coord::new(5, 1), Coord::new(2, 7)),
        (Coord::new(2, 1), Size::new(4, 7))
    );
    assert_eq!(
        rect_from_corners(Coord::new(-3, -3), Coord::new(-3, -3)),
        (Coord::new(-3, -3), Size::new(1, 1))
    );
    assert_eq!(
        rect_from_corners(Coord::new(i16::MIN, 0), Coord::new(i16::MAX, 0)),
        (Coord::new(i16::MIN, 0), Size::new(65535, 1))
    );
    assert_eq!(
        rect_from_corners(Coord::new(i16::MIN + 1, 9), Coord::new(i16::MAX, 0)),
        (Coord::new(i16::MIN + 1, 0), Size::new(65535, 10))
    );
}

#[test]
fn rectangle_mode_with_bindings_of_its_own() {
    let bindings = vec![
        (KeySequence::try_from("gl").unwrap(), Op::MoveCursor(Direction::Right)),
        (KeySequence::try_from("<C-d>").unwrap(), Op::MakeShape),
        (KeySequence::try_from("S").unwrap(), Op::NextStyle),
    ];
    let handler = CanvasHandler::new();
    let mode = MakeRectMode::with_bindings(Coord::new(0, 0), bindings);
    let (mode, op) = mode.next(ch('g'), &handler);
    assert!(matches!(op, AppOp::Nop));
    let (mode, op) = Mode::next(mode, ch('l'), &handler);
    assert!(matches!(op, AppOp::MoveCanvasCursor(Direction::Right)));
    let (mode, op) = mode.next(ch('S'), &handler);
    assert!(matches!(op, AppOp::Nop));
    assert_eq!(
        mode.additinal_canvas_shapes(Coord::new(1, 0)),
        vec![(Coord::new(0, 0), Shape::Rect(Rect::new(Size::new(2, 1), Style::SingleBold)))]
    );
    let done = Event::Key(KeyEvent::new(KeyCode::Char('d'), KeyModifiers::control()));
    let (mode, op) = mode.next(done, &handler);
    assert!(matches!(mode, Mode::Normal(_)));
    assert!(matches!(op, AppOp::MakeShape(Coord { x: 0, y: 0 }, Shape::Rect(_))));
}

#[test]
fn path_grows_and_shrinks_with_the_cursor() {
    let mut app = App::new();
    type_keys(&mut app, "lljj");
    app.handle_event(ch('p'));
    type_keys(&mut app, "llkh");
    assert_eq!(cursor(&app), Coord::new(3, 1));
    app.handle_event(code(KeyCode::Backspace));
    assert_eq!(cursor(&app), Coord::new(4, 1));
    app.handle_event(code(KeyCode::Backspace));
    assert_eq!(cursor(&app), Coord::new(4, 2));
    type_keys(&mut app, "jsa");
    assert_eq!(cursor(&app), Coord::new(4, 3));
    let expected = Path::new(
        vec![Direction::Right, Direction::Right, Direction::Down],
        false,
        true,
        Style::SingleBold,
    );
    assert_eq!(
        app.mode_ref().additinal_canvas_shapes(cursor(&app)),
        vec![(Coord::new(2, 2), Shape::Path(expected.clone()))]
    );
    app.handle_event(code(KeyCode::Enter));
    assert!(matches!(app.mode_ref(), Mode::Normal(_)));
    assert_eq!(shapes(&app), vec![(0, Coord::new(2, 2), Shape::Path(expected))]);
}

#[test]
fn path_places_its_upper_left_corner() {
    let mut app = App::new();
    type_keys(&mut app, "llljjj");
    app.handle_event(ch('p'));
    type_keys(&mut app, "hk");
    app.handle_event(code(KeyCode::Enter));
    let placed = shapes(&app);
    assert_eq!(placed.len(), 1);
    assert_eq!(placed[0].1, Coord::new(2, 2));
    assert_eq!(placed[0].2.to_string(), "│ \n└─\n");
}

#[test]
fn empty_path_is_not_placed() {
    let mut app = App::new();
    app.handle_event(ch('p'));
    app.handle_event(code(KeyCode::Backspace));
    app.handle_event(ch('l'));
    app.handle_event(code(KeyCode::Backspace));
    app.handle_event(ch('z'));
    app.handle_event(Event::Other);
    assert_eq!(cursor(&app), Coord::new(0, 0));
    app.handle_event(code(KeyCode::Enter));
    assert!(matches!(app.mode_ref(), Mode::Normal(_)));
    assert!(shapes(&app).is_empty());
}

#[test]
fn text_moves_the_cursor_by_display_width() {
    let mut app = App::new();
    type_keys(&mut app, "llj");
    app.handle_event(ch('t'));
    type_keys(&mut app, "aあb");
    assert_eq!(cursor(&app), Coord::new(6, 1));
    app.handle_event(code(KeyCode::Enter));
    assert_eq!(cursor(&app), Coord::new(2, 2));
    type_keys(&mut app, "cd");
    assert_eq!(cursor(&app), Coord::new(4, 2));
    app.handle_event(code(KeyCode::Backspace));
    app.handle_event(code(KeyCode::Backspace));
    assert_eq!(cursor(&app), Coord::new(2, 2));
    // back over the line feed: to the end of the line before
    app.handle_event(code(KeyCode::Backspace));
    assert_eq!(cursor(&app), Coord::new(6, 1));
    app.handle_event(code(KeyCode::Backspace));
    assert_eq!(cursor(&app), Coord::new(5, 1));
    app.handle_event(code(KeyCode::Backspace));
    assert_eq!(cursor(&app), Coord::new(3, 1));
    // a control character is left out
    app.handle_event(ch('\t'));
    app.handle_event(code(KeyCode::Left));
    assert_eq!(cursor(&app), Coord::new(3, 1));
    type_keys(&mut app, "r t");
    app.handle_event(code(KeyCode::Esc));
    assert!(matches!(app.mode_ref(), Mode::Normal(_)));
    assert_eq!(
        shapes(&app),
        vec![(0, Coord::new(2, 1), Shape::Text(Text::new("ar t".to_string())))]
    );
}

fn text_mode(mode: Mode) -> MakeTextMode {
    match mode {
        Mode::MakeText(m) => m,
        _ => panic!("the mode is not MakeText"),
    }
}

#[test]
fn text_step_goes_by_the_widths_it_is_given() {
    let start = Coord::new(2, 1);
    let mode = MakeTextMode::new(start);
    let (mode, op) = mode.step(ch('x'), start, Some(3), None);
    assert!(matches!(op, AppOp::SetCanvasCursor(Coord { x: 5, y: 1 })));
    // a character without a width is left out
    let (mode, op) = text_mode(mode).step(ch('y'), Coord::new(5, 1), None, None);
    assert!(matches!(op, AppOp::Nop));
    assert_eq!(
        mode.additinal_canvas_shapes(start),
        vec![(start, Shape::Text(Text::new("x".to_string())))]
    );
    let (mode, op) = text_mode(mode).step(code(KeyCode::Enter), Coord::new(5, 1), None, None);
    assert!(matches!(op, AppOp::SetCanvasCursor(Coord { x: 2, y: 2 })));
    // back over the line feed: up, and right by the width that is given
    let (mode, op) = text_mode(mode).step(code(KeyCode::Backspace), Coord::new(2, 2), None, Some(3));
    assert!(matches!(op, AppOp::SetCanvasCursor(Coord { x: 5, y: 1 })));
    let (mode, op) = text_mode(mode).step(code(KeyCode::Backspace), Coord::new(5, 1), None, Some(3));
    assert!(matches!(op, AppOp::SetCanvasCursor(Coord { x: 2, y: 1 })));
    let (mode, op) = text_mode(mode).step(code(KeyCode::Backspace), start, None, Some(9));
    assert!(matches!(op, AppOp::SetCanvasCursor(Coord { x: 2, y: 1 })));
    let (mode, op) = text_mode(mode).step(code(KeyCode::Esc), start, None, None);
    assert!(matches!(mode, Mode::Normal(_)));
    assert!(matches!(op, AppOp::Nop));
}

#[test]
fn empty_text_is_not_placed() {
    let mut app = App::new();
    app.handle_event(ch('t'));
    app.handle_event(code(KeyCode::Backspace));
    assert_eq!(cursor(&app), Coord::new(0, 0));
    app.handle_event(ch('x'));
    app.handle_event(code(KeyCode::Backspace));
    app.handle_event(code(KeyCode::Esc));
    assert!(shapes(&app).is_empty());
    assert_eq!(add_columns(5, 2), 7);
    assert_eq!(add_columns(i16::MAX, 1), i16::MAX);
    assert_eq!(add_columns(-5, 100000), i16::MAX);
    assert_eq!(sub_columns(5, 2), 3);
    assert_eq!(sub_columns(i16::MIN, 2), i16::MIN);
    assert_eq!(sub_columns(5, 100000), i16::MIN);
}

fn two_rects() -> App {
    let mut app = App::new();
    app.handle_event(ch('r'));
    type_keys(&mut app, "lj");
    app.handle_event(code(KeyCode::Enter));
    type_keys(&mut app, "lll");
    app.handle_event(ch('r'));
    type_keys(&mut app, "lj");
    app.handle_event(code(KeyCode::Enter));
    app
}

#[test]
fn select_needs_a_shape_under_the_cursor() {
    let mut app = two_rects();
    assert_eq!(shapes(&app).len(), 2);
    assert_eq!(cursor(&app), Coord::new(5, 2));
    type_keys(&mut app, "l ");
    assert!(matches!(app.mode_ref(), Mode::Normal(_)));
    type_keys(&mut app, "h ");
    assert!(matches!(app.mode_ref(), Mode::Select(_)));
    assert_eq!(members(&app.mode_ref().shapes_to_highlight()), vec![1]);
}

#[test]
fn select_toggles_moves_and_deletes() {
    let mut app = two_rects();
    app.handle_event(ch(' '));
    type_keys(&mut app, "hhhhk ");
    assert_eq!(members(&app.mode_ref().shapes_to_highlight()), vec![0, 1]);
    // shifted movement keys move the selected shapes and the cursor
    let before = cursor(&app);
    type_keys(&mut app, "LJJ");
    assert_eq!(cursor(&app), Coord::new(before.x + 1, before.y + 2));
    let placed = shapes(&app);
    assert_eq!(placed[0].1, Coord::new(1, 2));
    assert_eq!(placed[1].1, Coord::new(5, 3));
    type_keys(&mut app, "HK");
    app.handle_event(ch(' '));
    assert_eq!(members(&app.mode_ref().shapes_to_highlight()), vec![1]);
    type_keys(&mut app, "lx");
    app.handle_event(Event::Other);
    assert!(matches!(app.mode_ref(), Mode::Select(_)));
    app.handle_event(ch('d'));
    assert!(matches!(app.mode_ref(), Mode::Normal(_)));
    let left = shapes(&app);
    assert_eq!(left.len(), 1);
    assert_eq!(left[0].0, 0);
    assert_eq!(left[0].1, Coord::new(0, 1));
}

#[test]
fn select_leaves_when_nothing_is_selected() {
    let mut app = two_rects();
    app.handle_event(ch(' '));
    assert!(matches!(app.mode_ref(), Mode::Select(_)));
    app.handle_event(ch(' '));
    assert!(matches!(app.mode_ref(), Mode::Normal(_)));
    app.handle_event(ch(' '));
    app.handle_event(code(KeyCode::Esc));
    assert!(matches!(app.mode_ref(), Mode::Normal(_)));
    assert_eq!(shapes(&app).len(), 2);
}

#[test]
fn operations_change_the_canvas() {
    let mut handler = CanvasHandler::new();
    let rect = Shape::Rect(Rect::new(Size::new(2, 2), Style::Single));
    assert!(!apply(&mut handler, AppOp::MakeShape(Coord::new(1, 1), rect.clone())));
    assert!(!apply(&mut handler, AppOp::MakeShape(Coord::new(4, 4), rect)));
    assert!(!apply(&mut handler, AppOp::SetCanvasCursor(Coord::new(3, 3))));
    assert!(!apply(&mut handler, AppOp::MoveCanvasCursor(Direction::Up)));
    assert!(!apply(&mut handler, AppOp::Nop));
    assert_eq!(handler.cursor_coord(), Coord::new(3, 2));
    let mut ids = IdSet::new();
    ids.insert(&Id::new(1));
    assert!(!apply(&mut handler, AppOp::MoveShapesAndCanvasCursor(ids.clone(), Direction::Left)));
    assert_eq!(handler.cursor_coord(), Coord::new(2, 2));
    assert_eq!(handler.canvas_ref().get(1).1, Coord::new(3, 4));
    assert!(!apply(&mut handler, AppOp::DeleteShapes(ids)));
    assert_eq!(handler.canvas_ref().len(), 1);
    assert!(apply(&mut handler, AppOp::QuitApp));
}

#[test]
fn frame_shows_the_shape_in_progress() {
    let mut app = App::new();
    app.handle_event(ch('r'));
    type_keys(&mut app, "l");
    let frame = app.render(Size::new(5, 3));
    let drawn: Vec<(u16, u16, char)> =
        frame.scene.paints.iter().map(|p| (p.cell.x, p.cell.y, p.cell.ch)).collect();
    assert_eq!(drawn, vec![(0, 0, '└'), (1, 0, '┘')]);
    assert_eq!(frame.scene.cursor, Some((1, 0)));
    assert_eq!(frame.status, "RECT [↵]Complete, [s]Change Line Style");
    assert_eq!(app.canvas_handler().rendering_size(), Size::new(5, 3));
}

#[test]
fn frame_highlights_the_selection() {
    let mut app = two_rects();
    app.handle_event(ch(' '));
    let frame = app.render(Size::new(10, 4));
    let marks: Vec<bool> = frame.scene.paints.iter().map(|p| p.highlight).collect();
    assert_eq!(marks, vec![false, false, false, false, true, true, true, true]);
    assert_eq!(frame.status, "SELECT [ ]toggle select [d]delete [HJKL]move");
}

#[test]
fn status_lines() {
    assert_eq!(
        NormalMode::default().status_msg(),
        "NORM [:]cmd [r]rect [t]text [p]path [ ]select [hjkl]move cursor"
    );
    assert_eq!(NormalMode::new().status_msg(), ModeHandler::default().get().status_msg());
    assert_eq!(MakePathMode::new(Coord::new(0, 0)).status_msg(), "LINE [Enter]Complete, [s]Change Line Style");
    assert_eq!(MakeTextMode::new(Coord::new(0, 0)).status_msg(), "TEXT [Esc]Complete");
    assert_eq!(MakeRectMode::new(Coord::new(0, 0)).status_msg(), "RECT [↵]Complete, [s]Change Line Style");
    assert_eq!(SelectMode::new(Id::new(0)).status_msg(), "SELECT [ ]toggle select [d]delete [HJKL]move");
    assert_eq!(DummyMode::new().status_msg(), "");
}

#[test]
fn mode_handler_replaces_the_mode() {
    let handler = CanvasHandler::new();
    let mut modes = ModeHandler::new();
    assert!(matches!(modes.process_event(ch('l'), &handler), AppOp::MoveCanvasCursor(Direction::Right)));
    assert!(matches!(modes.get(), Mode::Normal(_)));
    assert!(matches!(modes.process_event(ch('t'), &handler), AppOp::Nop));
    assert!(matches!(modes.get(), Mode::MakeText(_)));
    assert!(matches!(
        modes.process_event(ch('x'), &handler),
        AppOp::SetCanvasCursor(Coord { x: 1, y: 0 })
    ));
    assert!(modes.get().additinal_canvas_shapes(Coord::new(0, 0)).len() == 1);
    assert!(modes.get().shapes_to_highlight().is_empty());
}

#[test]
fn keys_and_movements() {
    assert_eq!(key_of(&ch('x')), Some(KeyCode::Char('x')));
    assert_eq!(key_of(&code(KeyCode::Esc)), Some(KeyCode::Esc));
    assert_eq!(key_of(&Event::Other), None);
    assert_eq!(movement_of('h'), Some(Direction::Left));
    assert_eq!(movement_of('j'), Some(Direction::Down));
    assert_eq!(movement_of('k'), Some(Direction::Up));
    assert_eq!(movement_of('l'), Some(Direction::Right));
    assert_eq!(movement_of('H'), None);
    assert_eq!(movement_of('x'), None);
}
