use diagram_editor::shape::text::{split_lines, Text};
use diagram_editor::util::chars::{char_at, chars_of};
use diagram_editor::util::ext::{slice_by_width, slice_chars_by_width};
use diagram_editor::shape::render::measure_rows;
use diagram_editor::shape::text::measure_lines;
use diagram_editor::util::width::is_blank_char;

fn text_of(chars: &Vec<char>) -> String {
    chars.iter().collect()
}

fn display_width(c: char) -> Option<usize> {
    measure_rows(&vec![vec![c]])[0][0]
}

fn line_width(line: &Vec<char>) -> usize {
    measure_lines(&vec![line.clone()])[0]
}

#[test]
fn display_width_of_characters() {
    assert_eq!(display_width('a'), Some(1));
    assert_eq!(display_width(' '), Some(1));
    assert_eq!(display_width('~'), Some(1));
    assert_eq!(display_width('あ'), Some(2));
    assert_eq!(display_width('─'), Some(1));
    assert_eq!(display_width('\u{301}'), Some(0));
    assert_eq!(display_width('\n'), None);
    assert_eq!(display_width('\u{7f}'), None);
    assert_eq!(display_width('\u{9f}'), None);
    assert_eq!(display_width('\u{a0}'), Some(1));
}

#[test]
fn control_characters_have_no_width() {
    for code in 0u32..0x3000 {
        if let Some(c) = char::from_u32(code) {
            assert_eq!(display_width(c).is_none(), c.is_control(), "U+{:04X}", code);
        }
    }
}

#[test]
fn slices_by_display_width() {
    assert_eq!(slice_by_width("0123456789", 3, 5), "34\n");
    assert_eq!(slice_by_width("01あ456789", 3, 5), " 4\n");
    assert_eq!(slice_by_width("01あ456789", 2, 5), "あ4\n");
    assert_eq!(slice_by_width("01あ", 0, 3), "01\n");
    assert_eq!(slice_by_width("abc", 5, 9), "\n");
    assert_eq!(slice_by_width("abc", 2, 1), "\n");
    assert_eq!(slice_by_width("", 0, 4), "\n");
    assert_eq!(slice_by_width("a\tb", 0, 4), "ab\n");
    let row = vec!['x', 'y', 'z'];
    let widths = vec![Some(3), Some(0), Some(1)];
    assert_eq!(slice_chars_by_width(&row, &widths, 0, 4), vec!['x', 'y', 'z']);
    assert_eq!(slice_chars_by_width(&row, &widths, 1, 4), vec![' ', ' ', 'y', 'z']);
    assert_eq!(slice_chars_by_width(&row, &widths, 3, 4), vec!['z']);
    assert_eq!(slice_chars_by_width(&row, &widths, 0, 3), vec!['x']);
}

#[test]
fn display_width_of_lines() {
    assert_eq!(line_width(&chars_of("")), 0);
    assert_eq!(line_width(&chars_of("abc")), 3);
    assert_eq!(line_width(&chars_of("あい")), 4);
    assert_eq!(line_width(&chars_of("aあb")), 4);
}

#[test]
fn blank_characters_are_white_space() {
    for code in 0u32..=0x10ffff {
        if let Some(c) = char::from_u32(code) {
            assert_eq!(is_blank_char(c), c.is_whitespace(), "U+{:04X}", code);
        }
    }
}

#[test]
fn characters_and_strings_convert_both_ways() {
    let chars = chars_of("aあ\n─");
    assert_eq!(chars, vec!['a', 'あ', '\n', '─']);
    assert_eq!(char_at(&chars, 1), 'あ');
    assert_eq!(Text::new("aあ\n─".to_string()).to_string(), "aあ\n─");
    assert_eq!(Text::new(String::new()).to_string(), "");
}

fn lines(s: &str) -> Vec<String> {
    split_lines(&chars_of(s)).iter().map(text_of).collect()
}

#[test]
fn lines_are_split_as_by_the_standard_library() {
    let samples = [
        "", "a", "a\n", "a\nb", "a\n\n", "\n", "\n\n", "a\r\n", "a\r", "\r\n", "a\r\nb\r\n",
        "a\r\r\n", "\r", "a\n\rb", "one\ntwo\nthree", "あ\nい\n", "x\n\ny",
    ];
    for s in samples {
        let expected: Vec<String> = s.lines().map(|l| l.to_string()).collect();
        assert_eq!(lines(s), expected, "{:?}", s);
        let text = Text::new(s.to_string());
        let rows: Vec<String> = text.rows().iter().map(text_of).collect();
        assert_eq!(rows, expected, "{:?}", s);
    }
}
