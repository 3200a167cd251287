use diagram_editor::shape::path::Path;
use diagram_editor::shape::rect::Rect;
use diagram_editor::shape::render::{layout_rows, Cell};
use diagram_editor::shape::style::{Chips, Style};
use diagram_editor::shape::text::{size_of_widths, within_width, Text};
use diagram_editor::shape::Shape;
use diagram_editor::util::chars::chars_of;
use diagram_editor::util::{Coord, Direction, Size};

fn string_of(chars: &Vec<char>) -> String {
    chars.iter().collect()
}

fn rows_of(shape: &Shape) -> Vec<String> {
    shape.rows().iter().map(string_of).collect()
}

fn cells(shape: &Shape, offset: Coord, area: Size) -> Vec<(u16, u16, char)> {
    shape.render(offset, area).iter().map(|c| (c.x, c.y, c.ch)).collect()
}

#[test]
fn styles_cycle() {
    let mut style = Style::Single;
    let mut seen = vec![style];
    for _ in 0..5 {
        style = style.next();
        seen.push(style);
    }
    assert_eq!(
        seen,
        vec![Style::Single, Style::SingleBold, Style::Double, Style::Dash, Style::Dot, Style::Ascii]
    );
    assert_eq!(style.next(), Style::Single);
}

#[test]
fn chips_of_each_style() {
    assert_eq!(
        Style::Single.chips(),
        Chips::new('─', '│', '┌', '┐', '└', '┘', '▲', '▼', '◀', '▶')
    );
    assert_eq!(Style::SingleBold.chips().horizontal, '━');
    assert_eq!(Style::Double.chips().upper_left_corner, '╔');
    assert_eq!(Style::Dash.chips().vertical, '╎');
    assert_eq!(Style::Dot.chips().lower_right_corner, '.');
    assert_eq!(
        Style::Ascii.chips(),
        Chips::new('-', '|', '+', '+', '+', '+', '^', 'v', '<', '>')
    );
}

#[test]
fn rectangle_glyphs() {
    let rect = Rect::new(Size::new(4, 3), Style::Single);
    assert_eq!(rect.to_string(), "┌──┐\n│  │\n└──┘\n");
    assert_eq!(rect.size(), Size::new(4, 3));
    assert!(rect.fill());
    let mut small = Rect::new(Size::new(3, 2), Style::Ascii);
    assert_eq!(small.to_string(), "+-+\n+-+\n");
    small.set_next_line_style();
    assert_eq!(small.line_style(), Style::Single);
    small.set_size(Size::new(2, 2));
    assert_eq!(small.to_string(), "┌┐\n└┘\n");
}

#[test]
fn degenerate_rectangles() {
    assert_eq!(Rect::new(Size::new(1, 1), Style::Single).to_string(), "┘\n");
    assert_eq!(Rect::new(Size::new(1, 3), Style::Single).to_string(), "┐\n│\n┘\n");
    assert_eq!(Rect::new(Size::new(3, 1), Style::Single).to_string(), "└─┘\n");
    assert_eq!(Rect::new(Size::new(0, 0), Style::Single).to_string(), "");
    assert_eq!(Rect::new(Size::new(5, 0), Style::Single).to_string(), "");
    assert_eq!(Rect::new(Size::new(0, 2), Style::Single).to_string(), "\n\n");
    let empty = Shape::Rect(Rect::new(Size::new(0, 2), Style::Single));
    assert!(empty.render(Coord::new(0, 0), Size::new(10, 10)).is_empty());
}

#[test]
fn rectangle_hit_test() {
    let rect = Rect::new(Size::new(4, 3), Style::Single);
    assert!(rect.hit(Coord::new(0, 0)));
    assert!(rect.hit(Coord::new(3, 2)));
    assert!(rect.hit(Coord::new(1, 1)));
    assert!(!rect.hit(Coord::new(4, 0)));
    assert!(!rect.hit(Coord::new(0, 3)));
    assert!(!rect.hit(Coord::new(-1, 0)));
    assert!(!rect.hit(Coord::new(0, -1)));
    assert!(!Rect::new(Size::new(0, 3), Style::Single).hit(Coord::new(0, 0)));
}

#[test]
fn path_bounding_box_follows_the_steps() {
    let path = Path::new(
        vec![Direction::Right, Direction::Right, Direction::Down],
        false,
        false,
        Style::Single,
    );
    assert_eq!(path.size(), Size::new(3, 2));
    assert_eq!(path.start_to_upper_left(), Coord::new(0, 0));
    let back = Path::new(vec![Direction::Left, Direction::Up], false, false, Style::Single);
    assert_eq!(back.size(), Size::new(2, 2));
    assert_eq!(back.start_to_upper_left(), Coord::new(-1, -1));
    let empty = Path::new(vec![], false, false, Style::Single);
    assert!(empty.is_empty());
    assert_eq!(empty.size(), Size::new(1, 1));
    assert_eq!(
        Path::calc_size_and_start_to_upper_left(&vec![Direction::Up, Direction::Up, Direction::Down]),
        (Size::new(1, 3), Coord::new(0, -2))
    );
}

#[test]
fn path_glyphs() {
    let steps = vec![Direction::Right, Direction::Right, Direction::Down];
    let plain = Path::new(steps.clone(), false, false, Style::Single);
    assert_eq!(plain.to_string(), "──┐\n  │\n");
    let arrows = Path::new(steps.clone(), true, true, Style::Single);
    assert_eq!(arrows.to_string(), "◀─┐\n  ▼\n");
    let ascii = Path::new(steps, false, true, Style::Ascii);
    assert_eq!(ascii.to_string(), "--+\n  v\n");
    let back = Path::new(vec![Direction::Left, Direction::Up], true, false, Style::Single);
    assert_eq!(back.to_string(), "│ \n└▶\n");
    assert_eq!(Path::new(vec![], true, true, Style::Single).to_string(), "");
    assert!(!plain.fill());
}

#[test]
fn path_corners() {
    let corner = |a: Direction, b: Direction| -> String {
        let rows = Path::new(vec![a, b], false, false, Style::Single).rows();
        let mut all = String::new();
        for row in rows {
            all.push_str(&string_of(&row));
            all.push('|');
        }
        all
    };
    assert_eq!(corner(Direction::Up, Direction::Left), "─┐| │|");
    assert_eq!(corner(Direction::Up, Direction::Right), "┌─|│ |");
    assert_eq!(corner(Direction::Down, Direction::Left), " │|─┘|");
    assert_eq!(corner(Direction::Down, Direction::Right), "│ |└─|");
    assert_eq!(corner(Direction::Right, Direction::Up), " │|─┘|");
    assert_eq!(corner(Direction::Left, Direction::Down), "┌─|│ |");
}

#[test]
fn path_hit_test_follows_the_polyline() {
    let path = Path::new(vec![Direction::Left, Direction::Up], false, false, Style::Single);
    assert!(path.hit(Coord::new(1, 1)));
    assert!(path.hit(Coord::new(0, 1)));
    assert!(path.hit(Coord::new(0, 0)));
    assert!(!path.hit(Coord::new(1, 0)));
    assert!(!path.hit(Coord::new(2, 1)));
    assert!(!path.hit(Coord::new(-1, 0)));
    let empty = Path::new(vec![], false, false, Style::Single);
    assert!(empty.hit(Coord::new(0, 0)));
    assert!(!empty.hit(Coord::new(1, 0)));
}

#[test]
fn pops_return_pushes_in_reverse() {
    let mut path = Path::new(vec![Direction::Down], false, false, Style::Single);
    let size = path.size();
    let origin = path.start_to_upper_left();
    let pushed = [Direction::Left, Direction::Left, Direction::Up, Direction::Right, Direction::Up];
    for d in pushed {
        assert!(path.can_push(d));
        path.push_path(d);
    }
    assert_eq!(path.size(), Size::new(3, 3));
    assert_eq!(path.start_to_upper_left(), Coord::new(-2, -1));
    let mut popped = Vec::new();
    for _ in 0..pushed.len() {
        popped.push(path.pop_path().unwrap());
    }
    let mut reversed = pushed.to_vec();
    reversed.reverse();
    assert_eq!(popped, reversed);
    assert_eq!(path.size(), size);
    assert_eq!(path.start_to_upper_left(), origin);
    assert_eq!(path.pop_path(), Some(Direction::Down));
    assert_eq!(path.pop_path(), None);
    assert!(path.is_empty());
}

#[test]
fn path_keeps_within_its_limits() {
    let long = vec![Direction::Right; 32766];
    assert!(Path::within_limits(&long));
    let mut path = Path::new(long, false, false, Style::Single);
    assert_eq!(path.size(), Size::new(32767, 1));
    assert!(!path.can_push(Direction::Right));
    assert!(path.can_push(Direction::Left));
    assert!(path.can_push(Direction::Down));
    assert!(!Path::within_limits(&vec![Direction::Up; 32767]));
    path.set_next_arrow_state();
    path.set_next_line_style();
    let copy = path.clone();
    assert_eq!(copy, path);
}

#[test]
fn arrow_states_cycle() {
    let steps = vec![Direction::Right, Direction::Right];
    let mut path = Path::new(steps, false, false, Style::Ascii);
    assert_eq!(path.to_string(), "---\n");
    path.set_next_arrow_state();
    assert_eq!(path.to_string(), "-->\n");
    path.set_next_arrow_state();
    assert_eq!(path.to_string(), "<--\n");
    path.set_next_arrow_state();
    assert_eq!(path.to_string(), "<->\n");
    path.set_next_arrow_state();
    assert_eq!(path.to_string(), "---\n");
}

#[test]
fn text_size_counts_columns_and_lines() {
    assert_eq!(Text::new("ab\ncde".to_string()).size(), Size::new(3, 2));
    assert_eq!(Text::new("あい".to_string()).size(), Size::new(4, 1));
    assert_eq!(Text::new("".to_string()).size(), Size::new(0, 0));
    assert_eq!(Text::new("a\n".to_string()).size(), Size::new(1, 1));
    assert_eq!(Text::new("a\n\n".to_string()).size(), Size::new(1, 2));
    assert_eq!(size_of_widths(&vec![3, 70000, 5]), Size::new(65535, 3));
    assert_eq!(size_of_widths(&vec![0; 70000]), Size::new(0, 65535));
    assert_eq!(size_of_widths(&vec![]), Size::new(0, 0));
}

#[test]
fn text_hit_test() {
    let text = Text::new("ab\ncde\nあ".to_string());
    assert!(text.hit(Coord::new(0, 0)));
    assert!(text.hit(Coord::new(1, 0)));
    assert!(!text.hit(Coord::new(2, 0)));
    assert!(text.hit(Coord::new(2, 1)));
    assert!(text.hit(Coord::new(1, 2)));
    assert!(!text.hit(Coord::new(2, 2)));
    assert!(!text.hit(Coord::new(0, 3)));
    assert!(!text.hit(Coord::new(-1, 0)));
    assert!(!text.hit(Coord::new(0, -1)));
    assert!(within_width(0, 1));
    assert!(!within_width(1, 1));
    assert!(!within_width(-1, 5));
}

#[test]
fn text_edits() {
    let mut text = Text::new(String::new());
    assert!(text.is_empty());
    assert_eq!(text.last_line_width(), None);
    assert_eq!(text.pop(), None);
    text.push('a');
    text.push('あ');
    assert_eq!(text.last_line_width(), Some(3));
    text.push('\n');
    assert_eq!(text.last_line_width(), Some(0));
    text.push('b');
    assert_eq!(text.last_line_width(), Some(1));
    assert_eq!(text.to_string(), "aあ\nb");
    assert_eq!(text.pop(), Some('b'));
    assert_eq!(text.pop(), Some('\n'));
    assert_eq!(text.to_string(), "aあ");
    assert!(text.fill());
    assert_eq!(text.clone(), text);
}

#[test]
fn render_places_a_shape_in_the_area() {
    let rect = Shape::Rect(Rect::new(Size::new(3, 2), Style::Single));
    assert_eq!(
        cells(&rect, Coord::new(1, 1), Size::new(10, 10)),
        vec![(1, 1, '┌'), (2, 1, '─'), (3, 1, '┐'), (1, 2, '└'), (2, 2, '─'), (3, 2, '┘')]
    );
    assert_eq!(rows_of(&rect), vec!["┌─┐", "└─┘"]);
    assert_eq!(rect.to_string(), "┌─┐\n└─┘\n");
    assert_eq!(rect.size(), Size::new(3, 2));
}

#[test]
fn render_clips_at_the_edges() {
    let rect = Shape::Rect(Rect::new(Size::new(3, 2), Style::Single));
    let area = Size::new(10, 10);
    // cut at the left and at the top
    assert_eq!(cells(&rect, Coord::new(-1, -1), area), vec![(0, 0, '─'), (1, 0, '┘')]);
    // cut at the right and at the bottom
    assert_eq!(cells(&rect, Coord::new(8, 9), area), vec![(8, 9, '┌'), (9, 9, '─')]);
    // outside
    assert!(cells(&rect, Coord::new(10, 0), area).is_empty());
    assert!(cells(&rect, Coord::new(0, 10), area).is_empty());
    assert!(cells(&rect, Coord::new(-3, 0), area).is_empty());
    assert!(cells(&rect, Coord::new(0, -2), area).is_empty());
    assert!(cells(&rect, Coord::new(0, 0), Size::new(0, 5)).is_empty());
    assert_eq!(cells(&rect, Coord::new(-2, -1), area), vec![(0, 0, '┘')]);
}

#[test]
fn render_fills_rectangles_but_not_paths() {
    let rect = Shape::Rect(Rect::new(Size::new(3, 3), Style::Ascii));
    let drawn = cells(&rect, Coord::new(0, 0), Size::new(5, 5));
    assert_eq!(drawn.len(), 9);
    assert_eq!(drawn[4], (1, 1, ' '));
    let path = Shape::Path(Path::new(
        vec![Direction::Right, Direction::Right, Direction::Down],
        false,
        false,
        Style::Single,
    ));
    assert!(!path.fill());
    assert_eq!(
        cells(&path, Coord::new(2, 0), Size::new(5, 5)),
        vec![(2, 0, '─'), (3, 0, '─'), (4, 0, '┐'), (4, 1, '│')]
    );
    assert!(path.hit(Coord::new(2, 1)));
    assert!(!path.hit(Coord::new(0, 1)));
}

#[test]
fn render_blanks_a_wide_glyph_that_the_edge_cuts() {
    let text = Shape::Text(Text::new("aあb".to_string()));
    let area = Size::new(10, 3);
    assert_eq!(cells(&text, Coord::new(0, 0), area), vec![(0, 0, 'a'), (1, 0, 'あ'), (3, 0, 'b')]);
    assert_eq!(cells(&text, Coord::new(-2, 0), area), vec![(0, 0, ' '), (1, 0, 'b')]);
    assert_eq!(cells(&text, Coord::new(-1, 0), area), vec![(0, 0, 'あ'), (2, 0, 'b')]);
    // the right edge cuts the wide glyph: it is left out
    assert_eq!(cells(&text, Coord::new(0, 0), Size::new(2, 3)), vec![(0, 0, 'a')]);
    let digits = Shape::Text(Text::new("01あ456789".to_string()));
    assert_eq!(
        cells(&digits, Coord::new(-3, 0), Size::new(2, 1)),
        vec![(0, 0, ' '), (1, 0, '4')]
    );
}

#[test]
fn render_leaves_out_control_characters() {
    let text = Shape::Text(Text::new("a\tb".to_string()));
    let drawn = cells(&text, Coord::new(0, 0), Size::new(10, 3));
    assert_eq!(drawn, vec![(0, 0, 'a'), (1, 0, 'b')]);
}

#[test]
fn layout_goes_by_the_widths_it_is_given() {
    let rows = vec![chars_of("abc")];
    let widths = vec![vec![Some(3), None, Some(2)]];
    let size = Size::new(5, 1);
    let all = layout_rows(&rows, &widths, size, true, Coord::new(0, 0), Size::new(10, 1));
    assert_eq!(all, vec![Cell { x: 0, y: 0, ch: 'a' }, Cell { x: 3, y: 0, ch: 'c' }]);
    // the left edge cuts the glyph of width 3 after its first column
    let cut = layout_rows(&rows, &widths, size, true, Coord::new(-1, 0), Size::new(10, 1));
    assert_eq!(
        cut,
        vec![
            Cell { x: 0, y: 0, ch: ' ' },
            Cell { x: 1, y: 0, ch: ' ' },
            Cell { x: 2, y: 0, ch: 'c' }
        ]
    );
    let open = layout_rows(&rows, &widths, size, false, Coord::new(-1, 0), Size::new(10, 1));
    assert_eq!(open, vec![Cell { x: 2, y: 0, ch: 'c' }]);
}

#[test]
fn drawn_cells_pass_the_hit_test() {
    let shapes = vec![
        Shape::Rect(Rect::new(Size::new(4, 3), Style::Double)),
        Shape::Text(Text::new("ab c\n\nxあz".to_string())),
    ];
    for shape in &shapes {
        for ox in -5i16..6 {
            for oy in -4i16..5 {
                let offset = Coord::new(ox, oy);
                for cell in shape.render(offset, Size::new(4, 3)) {
                    if !cell.ch.is_whitespace() {
                        let local = Coord::new(cell.x as i16 - ox, cell.y as i16 - oy);
                        assert!(shape.hit(local), "{:?} at {:?}", cell, offset);
                    }
                }
            }
        }
    }
}

#[test]
fn shapes_clone_to_equal_shapes() {
    let path = Shape::Path(Path::new(vec![Direction::Up], true, false, Style::Dot));
    assert_eq!(path.clone(), path);
    let text = Shape::Text(Text::new("x".to_string()));
    assert_eq!(text.clone(), text);
    assert_ne!(text, path);
}
