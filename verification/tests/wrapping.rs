use hyprsets::wrapping::{cell, text_cells, utf8_len, width_up_to, wrap_cells, wrap_input_text, Cell};
use unicode_width::{UnicodeWidthChar, UnicodeWidthStr};

#[test]
fn short_text_stays_on_one_line() {
    assert_eq!(wrap_input_text("abc", 0, 10), (vec!["abc".to_string()], 0, 0));
    assert_eq!(wrap_input_text("abc", 2, 10), (vec!["abc".to_string()], 2, 0));
    assert_eq!(wrap_input_text("abc", 3, 10), (vec!["abc".to_string()], 3, 0));
    assert_eq!(wrap_input_text("abc", 99, 10), (vec!["abc".to_string()], 3, 0));
    assert_eq!(wrap_input_text("", 0, 10), (vec![String::new()], 0, 0));
    assert_eq!(wrap_input_text("", 5, 10), (vec![String::new()], 0, 0));
}

#[test]
fn text_wraps_at_the_width_of_the_box() {
    let (lines, col, row) = wrap_input_text("abcdef", 4, 3);
    assert_eq!(lines, vec!["abc", "def"]);
    assert_eq!((col, row), (1, 1));
    let (lines, col, row) = wrap_input_text("hello world", 5, 5);
    assert_eq!(lines, vec!["hello", " worl", "d"]);
    assert_eq!((col, row), (4, 0));
    let (lines, col, row) = wrap_input_text("hello world", 11, 5);
    assert_eq!(lines, vec!["hello", " worl", "d"]);
    assert_eq!((col, row), (1, 2));
    let (_, col, row) = wrap_input_text("hello world", 10, 5);
    assert_eq!((col, row), (4, 1));
}

#[test]
fn wide_characters_take_two_columns() {
    let (lines, col, row) = wrap_input_text("あい", 3, 3);
    assert_eq!(lines, vec!["あ", "い"]);
    assert_eq!((col, row), (2, 0));
    let (lines, col, row) = wrap_input_text("あい", 6, 3);
    assert_eq!(lines, vec!["あ", "い"]);
    assert_eq!((col, row), (2, 1));
    let (lines, col, row) = wrap_input_text("aあい", 4, 4);
    assert_eq!(lines, vec!["aあ", "い"]);
    assert_eq!((col, row), (3, 0));
    // a character wider than the box still goes on an empty line
    let (lines, col, row) = wrap_input_text("あ", 3, 1);
    assert_eq!(lines, vec!["あ"]);
    assert_eq!((col, row), (0, 0));
}

#[test]
fn box_without_width_shows_one_empty_line() {
    assert_eq!(wrap_input_text("abc", 2, 0), (vec![String::new()], 0, 0));
}

#[test]
fn cursor_inside_a_character_goes_to_the_end() {
    // byte 2 is inside あ: no character ends there
    let (lines, col, row) = wrap_input_text("あい", 2, 10);
    assert_eq!(lines, vec!["あい"]);
    assert_eq!((col, row), (4, 0));
}

#[test]
fn cells_carry_the_width_that_the_tables_give() {
    for c in ['a', ' ', 'あ', 'é', '😀', '\u{0301}', '\t', '\u{7f}', '\u{200b}', 'Ω'] {
        let expected = UnicodeWidthChar::width(c).unwrap_or(0) as u16;
        assert_eq!(
            cell(c),
            Cell { ch: c, width: expected, len: c.len_utf8() as u8 },
            "{c:?}"
        );
        assert_eq!(utf8_len(c) as usize, c.len_utf8());
    }
    assert_eq!(cell('あ').width, 2);
    assert_eq!(cell('a').width, 1);
    let cells = text_cells("aあ");
    assert_eq!(
        cells,
        vec![Cell { ch: 'a', width: 1, len: 1 }, Cell { ch: 'あ', width: 2, len: 3 }]
    );
}

#[test]
fn cells_are_laid_out_by_their_given_widths() {
    // the layout goes by the widths it is handed, whatever they are
    let cells = vec![
        Cell { ch: 'a', width: 3, len: 1 },
        Cell { ch: 'b', width: 3, len: 1 },
        Cell { ch: 'c', width: 0, len: 2 },
        Cell { ch: 'd', width: 1, len: 1 },
    ];
    let (lines, col, row) = wrap_cells(&cells, 4, 4);
    assert_eq!(lines, vec![vec!['a'], vec!['b', 'c', 'd']]);
    assert_eq!((col, row), (3, 1));
    let (lines, col, row) = wrap_cells(&cells, 1, 4);
    assert_eq!(lines.len(), 2);
    assert_eq!((col, row), (3, 0));
    let (_, col, row) = wrap_cells(&cells, 3, 4);
    assert_eq!((col, row), (3, 1));
    let (_, col, row) = wrap_cells(&cells, 5, 4);
    assert_eq!((col, row), (3, 1));
}

#[test]
fn width_before_the_cursor() {
    let text = "aあb";
    assert_eq!(width_up_to(text, 0), 0);
    assert_eq!(width_up_to(text, 1), 1);
    assert_eq!(width_up_to(text, 4), 3);
    assert_eq!(width_up_to(text, 5), 4);
    assert_eq!(width_up_to(text, 50), 4);
    for idx in [0usize, 1, 4, 5] {
        assert_eq!(width_up_to(text, idx), UnicodeWidthStr::width(&text[..idx]) as u16);
    }
}
