//! Laying a line of input out in a box of limited width: where the text
//! wraps, and where the cursor stands. How wide a character is on the screen
//! is not decided here.
use crate::text::string_of;
use unicode_width::{UnicodeWidthChar, UnicodeWidthStr};
use vstd::prelude::*;
use vstd::string::StringSliceAdditionalSpecFns;
use vstd::utf8::{decode_utf8, encode_utf8_decode_utf8, is_char_boundary};

verus! {

/// The width of a character on the screen, in columns, as the crate
/// `unicode-width` gives it; none for a control character.
pub uninterp spec fn unicode_char_width(c: char) -> Option<usize>;

/// The width of a text on the screen, in columns, as the crate
/// `unicode-width` gives it.
pub uninterp spec fn unicode_str_width(s: Seq<char>) -> usize;

/// `UnicodeWidthChar::width` of the crate `unicode-width`. Believed, not
/// proved: the result is the width that the crate's tables give for the
/// character, which depends on the character alone.
#[verifier::external_body]
fn char_width(c: char) -> (w: Option<usize>)
    ensures
        w == unicode_char_width(c),
{
    UnicodeWidthChar::width(c)
}

/// `UnicodeWidthStr::width` of the crate `unicode-width`. Believed, not
/// proved: the result is the width that the crate works out for the text,
/// which depends on its characters alone.
#[verifier::external_body]
fn str_width(s: &str) -> (w: usize)
    ensures
        w == unicode_str_width(s@),
{
    UnicodeWidthStr::width(s)
}

/// A width in columns as the screen counts it: in sixteen bits, what is
/// above them dropped.
pub open spec fn columns_of(width: usize) -> u16 {
    low_columns(width as nat)
}

/// A number as the screen counts it: in sixteen bits, what is above them
/// dropped.
pub open spec fn low_columns(n: nat) -> u16 {
    (n % 0x1_0000) as u16
}

/// A width in columns as the screen counts it.
pub fn columns(width: usize) -> (out: u16)
    ensures
        out == columns_of(width),
{
    (width % 0x1_0000) as u16
}

/// The number of bytes that a character takes in UTF-8.
pub open spec fn utf8_len_of(c: char) -> u8 {
    let u = c as u32;
    if u < 0x80 {
        1
    } else if u < 0x800 {
        2
    } else if u < 0x1_0000 {
        3
    } else {
        4
    }
}

/// The number of bytes that a character takes in UTF-8.
pub fn utf8_len(c: char) -> (n: u8)
    ensures
        n == utf8_len_of(c),
{
    let u: u32 = c as u32;
    if u < 0x80 {
        1
    } else if u < 0x800 {
        2
    } else if u < 0x1_0000 {
        3
    } else {
        4
    }
}

/// One character of the input with what the layout needs of it: its width on
/// the screen and its length in bytes.
#[derive(Debug, Clone, Copy, PartialEq, Eq, Structural)]
pub struct Cell {
    pub ch: char,
    pub width: u16,
    pub len: u8,
}

/// The cell of a character: a character without a width of its own, such as
/// a control character, takes no column.
pub open spec fn cell_of(c: char) -> Cell {
    Cell {
        ch: c,
        width: match unicode_char_width(c) {
            Some(w) => columns_of(w),
            None => 0,
        },
        len: utf8_len_of(c),
    }
}

/// The cells of a text.
pub open spec fn cells_of(s: Seq<char>) -> Seq<Cell> {
    Seq::new(s.len(), |i: int| cell_of(s[i]))
}

/// A layout under way: the lines so far and the width of each, the place of
/// the cursor once it is set, and the byte position reached.
pub struct Layout {
    pub lines: Seq<Seq<char>>,
    pub widths: Seq<u16>,
    pub col: u16,
    pub row: u16,
    pub set: bool,
    pub at: nat,
}

/// The column of a cursor that stands after `width` columns in a box of
/// `max_width` columns: it stays inside the box.
pub open spec fn cursor_col(width: u16, max_width: u16) -> u16 {
    if max_width == 0 {
        0
    } else if width > max_width - 1 {
        (max_width - 1) as u16
    } else {
        width
    }
}

/// A width with more columns added, held at the largest number.
pub open spec fn widened(width: u16, more: u16) -> u16 {
    if width + more > u16::MAX {
        u16::MAX
    } else {
        (width + more) as u16
    }
}

/// The layout before any character: one empty line, and the cursor set at
/// its start if the cursor stands at the start of the text.
pub open spec fn blank_layout(target: nat) -> Layout {
    Layout {
        lines: seq![Seq::<char>::empty()],
        widths: seq![0u16],
        col: 0,
        row: 0,
        set: target == 0,
        at: 0,
    }
}

/// The layout with one more character placed. The character goes to a new
/// line if it does not fit on the last one, unless that line is empty; the
/// cursor is set behind it if the cursor stands at its end in the text.
pub open spec fn placed(l: Layout, cell: Cell, target: nat, max_width: u16) -> Layout {
    if l.lines.len() == 0 || l.widths.len() == 0 {
        l
    } else {
        let wrap = l.widths.last() + cell.width > max_width && l.lines.last().len() > 0;
        let lines = if wrap {
            l.lines.push(seq![cell.ch])
        } else {
            l.lines.update(l.lines.len() - 1, l.lines.last().push(cell.ch))
        };
        let width = if wrap {
            widened(0, cell.width)
        } else {
            widened(l.widths.last(), cell.width)
        };
        let widths = if wrap {
            l.widths.push(width)
        } else {
            l.widths.update(l.widths.len() - 1, width)
        };
        let at = l.at + cell.len as nat;
        let here = !l.set && target == at;
        Layout {
            lines,
            widths,
            col: if here {
                cursor_col(width, max_width)
            } else {
                l.col
            },
            row: if here {
                low_columns((lines.len() - 1) as nat)
            } else {
                l.row
            },
            set: l.set || here,
            at,
        }
    }
}

/// The layout with all of `cells` placed, in order.
pub open spec fn laid_out(cells: Seq<Cell>, target: nat, max_width: u16) -> Layout
    decreases cells.len(),
{
    if cells.len() == 0 {
        blank_layout(target)
    } else {
        placed(laid_out(cells.drop_last(), target, max_width), cells.last(), target, max_width)
    }
}

/// The place of the cursor in a finished layout: where it was set, or at the
/// end of the last line where it never was.
pub open spec fn cursor_of(l: Layout, max_width: u16) -> (u16, u16) {
    if l.set || l.lines.len() == 0 || l.widths.len() == 0 {
        (l.col, l.row)
    } else {
        (
            cursor_col(l.widths.last(), max_width),
            low_columns((l.lines.len() - 1) as nat),
        )
    }
}

/// What a box of `max_width` columns shows of `cells` with the cursor at
/// byte `target`: the lines, and the column and the row of the cursor. A box
/// without width shows one empty line.
pub open spec fn wrapped(cells: Seq<Cell>, target: nat, max_width: u16) -> (
    Seq<Seq<char>>,
    u16,
    u16,
) {
    if max_width == 0 {
        (seq![Seq::<char>::empty()], 0, 0)
    } else {
        let l = laid_out(cells, target, max_width);
        (l.lines, cursor_of(l, max_width).0, cursor_of(l, max_width).1)
    }
}

proof fn lemma_laid_out_shape(cells: Seq<Cell>, target: nat, max_width: u16)
    ensures
        laid_out(cells, target, max_width).lines.len() >= 1,
        laid_out(cells, target, max_width).lines.len() == laid_out(
            cells,
            target,
            max_width,
        ).widths.len(),
        laid_out(cells, target, max_width).lines.len() <= cells.len() + 1,
        laid_out(cells, target, max_width).at <= 255 * cells.len(),
    decreases cells.len(),
{
    if cells.len() > 0 {
        lemma_laid_out_shape(cells.drop_last(), target, max_width);
    }
}

/// Lays `cells` out in a box of `max_width` columns, with the cursor at
/// byte `target` of the text.
pub fn wrap_cells(cells: &Vec<Cell>, target: usize, max_width: u16) -> (out: (
    Vec<Vec<char>>,
    u16,
    u16,
))
    ensures
        out.0.deep_view() == wrapped(cells@, target as nat, max_width).0,
        out.1 == wrapped(cells@, target as nat, max_width).1,
        out.2 == wrapped(cells@, target as nat, max_width).2,
{
    let mut lines: Vec<Vec<char>> = Vec::new();
    lines.push(Vec::new());
    assert(lines.deep_view() =~~= seq![Seq::<char>::empty()]);
    if max_width == 0 {
        return (lines, 0, 0);
    }
    let mut widths: Vec<u16> = Vec::new();
    widths.push(0);
    let mut col: u16 = 0;
    let mut row: u16 = 0;
    let mut set: bool = target == 0;
    let mut at: u128 = 0;
    let mut i: usize = 0;
    assert(cells@.take(0) =~= Seq::<Cell>::empty());
    assert(widths@ =~= seq![0u16]);
    while i < cells.len()
        invariant
            i <= cells.len(),
            max_width > 0,
            at <= 255 * i,
            ({
                let l = laid_out(cells@.take(i as int), target as nat, max_width);
                &&& lines.deep_view() == l.lines
                &&& widths@ == l.widths
                &&& col == l.col
                &&& row == l.row
                &&& set == l.set
                &&& at == l.at
            }),
        decreases cells.len() - i,
    {
        let ghost before = laid_out(cells@.take(i as int), target as nat, max_width);
        proof {
            lemma_laid_out_shape(cells@.take(i as int), target as nat, max_width);
            assert(cells@.take(i as int + 1).drop_last() =~= cells@.take(i as int));
            assert(cells@.take(i as int + 1).last() == cells@[i as int]);
        }
        let cell = cells[i];
        let last = lines.len() - 1;
        assert(before.lines.last() == lines@[last as int]@);
        let wrap = widths[last] as u32 + cell.width as u32 > max_width as u32 && lines[last].len()
            > 0;
        let width: u16;
        if wrap {
            let mut line: Vec<char> = Vec::new();
            line.push(cell.ch);
            width = cell.width;
            let ghost old_lines = lines.deep_view();
            lines.push(line);
            widths.push(width);
            assert(lines.deep_view() =~~= old_lines.push(seq![cell.ch]));
        } else {
            let current = widths[last];
            width = if current > u16::MAX - cell.width {
                u16::MAX
            } else {
                current + cell.width
            };
            let ghost old_lines = lines.deep_view();
            let mut line = lines.pop().unwrap();
            line.push(cell.ch);
            lines.push(line);
            widths.set(last, width);
            assert(lines.deep_view() =~~= old_lines.update(
                old_lines.len() - 1,
                old_lines.last().push(cell.ch),
            ));
        }
        at = at + cell.len as u128;
        if !set && target as u128 == at {
            set = true;
            col = if width > max_width - 1 {
                max_width - 1
            } else {
                width
            };
            row = columns(lines.len() - 1);
        }
        i += 1;
    }
    assert(cells@.take(cells.len() as int) =~= cells@);
    proof {
        lemma_laid_out_shape(cells@, target as nat, max_width);
    }
    if !set {
        let last = widths.len() - 1;
        col = if widths[last] > max_width - 1 {
            max_width - 1
        } else {
            widths[last]
        };
        row = columns(lines.len() - 1);
    }
    (lines, col, row)
}

/// The cell of a character, with its width on the screen.
pub fn cell(c: char) -> (out: Cell)
    ensures
        out == cell_of(c),
{
    let width = match char_width(c) {
        Some(w) => columns(w),
        None => 0,
    };
    Cell { ch: c, width, len: utf8_len(c) }
}

/// The cells of a text: each character with its width on the screen.
pub fn text_cells(text: &str) -> (cells: Vec<Cell>)
    ensures
        cells@ == cells_of(text@),
{
    let mut cells: Vec<Cell> = Vec::new();
    for c in it: text.chars()
        invariant
            it.seq() == text@,
            cells@.len() == it.index(),
            forall|j: int| 0 <= j < it.index() ==> cells@[j] == cell_of(#[trigger] text@[j]),
    {
        cells.push(cell(c));
    }
    assert(cells@ =~= cells_of(text@));
    cells
}

/// The smaller of the cursor and the length of the text in bytes: the byte
/// where the cursor stands.
pub open spec fn clamped_cursor(text: &str, cursor: usize) -> nat {
    if cursor <= text.spec_bytes().len() {
        cursor as nat
    } else {
        text.spec_bytes().len()
    }
}

/// Lays a line of input out in a box of `max_width` columns: the lines that
/// the box shows, and the column and the row of the cursor, which stands at
/// byte `cursor` of the text or at its end.
pub fn wrap_input_text(text: &str, cursor: usize, max_width: u16) -> (out: (
    Vec<String>,
    u16,
    u16,
))
    ensures
        out.0.deep_view() == wrapped(cells_of(text@), clamped_cursor(text, cursor), max_width).0,
        out.1 == wrapped(cells_of(text@), clamped_cursor(text, cursor), max_width).1,
        out.2 == wrapped(cells_of(text@), clamped_cursor(text, cursor), max_width).2,
{
    let len = text.as_bytes().len();
    let target = if cursor < len {
        cursor
    } else {
        len
    };
    let cells = text_cells(text);
    let (rows, col, row) = wrap_cells(&cells, target, max_width);
    let mut lines: Vec<String> = Vec::new();
    let mut k: usize = 0;
    assert(lines.deep_view() =~~= rows.deep_view().take(0));
    while k < rows.len()
        invariant
            k <= rows.len(),
            lines.deep_view() == rows.deep_view().take(k as int),
        decreases rows.len() - k,
    {
        let ghost done = lines.deep_view();
        lines.push(string_of(&rows[k]));
        assert(lines.deep_view() =~~= done.push(rows@[k as int]@));
        assert(rows.deep_view().take(k as int + 1) =~~= rows.deep_view().take(k as int).push(
            rows@[k as int]@,
        ));
        k += 1;
    }
    assert(rows.deep_view().take(rows.len() as int) =~~= rows.deep_view());
    (lines, col, row)
}

/// The characters of `text` before byte `at`.
pub open spec fn chars_before(text: &str, at: int) -> Seq<char> {
    decode_utf8(text.spec_bytes().subrange(0, at))
}

/// The width on the screen of the text before the cursor, which stands at
/// byte `cursor` of the text or at its end.
pub fn width_up_to(text: &str, cursor: usize) -> (w: u16)
    requires
        is_char_boundary(text.spec_bytes(), clamped_cursor(text, cursor) as int),
    ensures
        w == columns_of(
            unicode_str_width(chars_before(text, clamped_cursor(text, cursor) as int)),
        ),
{
    let len = text.as_bytes().len();
    let idx = if cursor < len {
        cursor
    } else {
        len
    };
    let (head, _) = text.split_at(idx);
    proof {
        encode_utf8_decode_utf8(head@);
    }
    columns(str_width(head))
}

} // verus!
