//! The built-in 5x7 font.

use vstd::prelude::*;

verus! {

/// Pixel columns in one character cell.
pub const CHAR_WIDTH: usize = 5;

/// Pixel rows in one character cell.
pub const CHAR_HEIGHT: usize = 7;

/// Cells in the table: the header cell and the characters `0x20..=0x7F`.
pub const FONT_CELLS: usize = 97;

/// The font, five column bytes to a cell, cells in the order of their
/// codes. In a column byte bit 0 is the top pixel row and bit 6 the bottom
/// one. The first cell is a header whose first byte is the code of the cell
/// after it; the cell of code `c` starts at `(c - (FONT5X7[0] - 1)) * 5`.
pub const FONT5X7: [u8; 485] = [
    0x20, 0x00, 0x00, 0x00, 0x00,  // header: the code of the first character
    0x00, 0x00, 0x00, 0x00, 0x00,  // (space)
    0x00, 0x00, 0x5F, 0x00, 0x00,  // !
    0x00, 0x07, 0x00, 0x07, 0x00,  // "
    0x14, 0x7F, 0x14, 0x7F, 0x14,  // #
    0x24, 0x2A, 0x7F, 0x2A, 0x12,  // $
    0x23, 0x13, 0x08, 0x64, 0x62,  // %
    0x36, 0x49, 0x55, 0x22, 0x50,  // &
    0x00, 0x05, 0x03, 0x00, 0x00,  // '
    0x00, 0x1C, 0x22, 0x41, 0x00,  // (
    0x00, 0x41, 0x22, 0x1C, 0x00,  // )
    0x08, 0x2A, 0x1C, 0x2A, 0x08,  // *
    0x08, 0x08, 0x3E, 0x08, 0x08,  // +
    0x00, 0x50, 0x30, 0x00, 0x00,  // ,
    0x08, 0x08, 0x08, 0x08, 0x08,  // -
    0x00, 0x60, 0x60, 0x00, 0x00,  // .
    0x20, 0x10, 0x08, 0x04, 0x02,  // /
    0x3E, 0x51, 0x49, 0x45, 0x3E,  // 0
    0x00, 0x42, 0x7F, 0x40, 0x00,  // 1
    0x42, 0x61, 0x51, 0x49, 0x46,  // 2
    0x21, 0x41, 0x45, 0x4B, 0x31,  // 3
    0x18, 0x14, 0x12, 0x7F, 0x10,  // 4
    0x27, 0x45, 0x45, 0x45, 0x39,  // 5
    0x3C, 0x4A, 0x49, 0x49, 0x30,  // 6
    0x01, 0x71, 0x09, 0x05, 0x03,  // 7
    0x36, 0x49, 0x49, 0x49, 0x36,  // 8
    0x06, 0x49, 0x49, 0x29, 0x1E,  // 9
    0x00, 0x36, 0x36, 0x00, 0x00,  // :
    0x00, 0x56, 0x36, 0x00, 0x00,  // ;
    0x00, 0x08, 0x14, 0x22, 0x41,  // <
    0x14, 0x14, 0x14, 0x14, 0x14,  // =
    0x41, 0x22, 0x14, 0x08, 0x00,  // >
    0x02, 0x01, 0x51, 0x09, 0x06,  // ?
    0x32, 0x49, 0x79, 0x41, 0x3E,  // @
    0x7E, 0x11, 0x11, 0x11, 0x7E,  // A
    0x7F, 0x49, 0x49, 0x49, 0x36,  // B
    0x3E, 0x41, 0x41, 0x41, 0x22,  // C
    0x7F, 0x41, 0x41, 0x22, 0x1C,  // D
    0x7F, 0x49, 0x49, 0x49, 0x41,  // E
    0x7F, 0x09, 0x09, 0x01, 0x01,  // F
    0x3E, 0x41, 0x41, 0x51, 0x32,  // G
    0x7F, 0x08, 0x08, 0x08, 0x7F,  // H
    0x00, 0x41, 0x7F, 0x41, 0x00,  // I
    0x20, 0x40, 0x41, 0x3F, 0x01,  // J
    0x7F, 0x08, 0x14, 0x22, 0x41,  // K
    0x7F, 0x40, 0x40, 0x40, 0x40,  // L
    0x7F, 0x02, 0x04, 0x02, 0x7F,  // M
    0x7F, 0x04, 0x08, 0x10, 0x7F,  // N
    0x3E, 0x41, 0x41, 0x41, 0x3E,  // O
    0x7F, 0x09, 0x09, 0x09, 0x06,  // P
    0x3E, 0x41, 0x51, 0x21, 0x5E,  // Q
    0x7F, 0x09, 0x19, 0x29, 0x46,  // R
    0x46, 0x49, 0x49, 0x49, 0x31,  // S
    0x01, 0x01, 0x7F, 0x01, 0x01,  // T
    0x3F, 0x40, 0x40, 0x40, 0x3F,  // U
    0x1F, 0x20, 0x40, 0x20, 0x1F,  // V
    0x7F, 0x20, 0x18, 0x20, 0x7F,  // W
    0x63, 0x14, 0x08, 0x14, 0x63,  // X
    0x03, 0x04, 0x78, 0x04, 0x03,  // Y
    0x61, 0x51, 0x49, 0x45, 0x43,  // Z
    0x00, 0x00, 0x7F, 0x41, 0x41,  // [
    0x02, 0x04, 0x08, 0x10, 0x20,  // backslash
    0x41, 0x41, 0x7F, 0x00, 0x00,  // ]
    0x04, 0x02, 0x01, 0x02, 0x04,  // ^
    0x40, 0x40, 0x40, 0x40, 0x40,  // _
    0x00, 0x01, 0x02, 0x04, 0x00,  // `
    0x20, 0x54, 0x54, 0x54, 0x78,  // a
    0x7F, 0x48, 0x44, 0x44, 0x38,  // b
    0x38, 0x44, 0x44, 0x44, 0x20,  // c
    0x38, 0x44, 0x44, 0x48, 0x7F,  // d
    0x38, 0x54, 0x54, 0x54, 0x18,  // e
    0x08, 0x7E, 0x09, 0x01, 0x02,  // f
    0x08, 0x14, 0x54, 0x54, 0x3C,  // g
    0x7F, 0x08, 0x04, 0x04, 0x78,  // h
    0x00, 0x44, 0x7D, 0x40, 0x00,  // i
    0x20, 0x40, 0x44, 0x3D, 0x00,  // j
    0x00, 0x7F, 0x10, 0x28, 0x44,  // k
    0x00, 0x41, 0x7F, 0x40, 0x00,  // l
    0x7C, 0x04, 0x18, 0x04, 0x78,  // m
    0x7C, 0x08, 0x04, 0x04, 0x78,  // n
    0x38, 0x44, 0x44, 0x44, 0x38,  // o
    0x7C, 0x14, 0x14, 0x14, 0x08,  // p
    0x08, 0x14, 0x14, 0x18, 0x7C,  // q
    0x7C, 0x08, 0x04, 0x04, 0x08,  // r
    0x48, 0x54, 0x54, 0x54, 0x20,  // s
    0x04, 0x3F, 0x44, 0x40, 0x20,  // t
    0x3C, 0x40, 0x40, 0x20, 0x7C,  // u
    0x1C, 0x20, 0x40, 0x20, 0x1C,  // v
    0x3C, 0x40, 0x30, 0x40, 0x3C,  // w
    0x44, 0x28, 0x10, 0x28, 0x44,  // x
    0x0C, 0x50, 0x50, 0x50, 0x3C,  // y
    0x44, 0x64, 0x54, 0x4C, 0x44,  // z
    0x00, 0x08, 0x36, 0x41, 0x00,  // {
    0x00, 0x00, 0x7F, 0x00, 0x00,  // |
    0x00, 0x41, 0x36, 0x08, 0x00,  // }
    0x08, 0x08, 0x2A, 0x1C, 0x08,  // right arrow
    0x08, 0x1C, 0x2A, 0x08, 0x08,  // left arrow
];

/// The code of the first cell of the table. Codes below it have no glyph.
pub open spec fn ascii_start() -> u8 {
    (FONT5X7[0] - 1) as u8
}

/// Whether the table has a cell for `code`.
pub open spec fn has_glyph(code: u8) -> bool {
    ascii_start() <= code < ascii_start() + FONT_CELLS
}

/// Where the cell of `code` starts in the table.
pub open spec fn glyph_offset(code: u8) -> int {
    (code - ascii_start()) * CHAR_WIDTH
}

/// The five column bytes of the cell of `code`.
pub open spec fn glyph_columns(code: u8) -> Seq<u8> {
    Seq::new(CHAR_WIDTH as nat, |col: int| FONT5X7[glyph_offset(code) + col])
}

/// The code of the first cell of the table, which is the first entry of the
/// table minus one.
pub fn font_ascii_start_index() -> (r: u8)
    ensures
        r == ascii_start(),
        r == 0x1F,
{
    FONT5X7[0] - 1
}

/// The column bytes of the cell of `code`, or `None` where the table has no
/// cell for it.
pub fn glyph(code: u8) -> (r: Option<[u8; 5]>)
    ensures
        match r {
            Some(columns) => has_glyph(code) && columns@ == glyph_columns(code),
            None => !has_glyph(code),
        },
{
    let start: u8 = font_ascii_start_index();
    if code < start || (code - start) as usize >= FONT_CELLS {
        return None;
    }
    let char_index: usize = (code - start) as usize * CHAR_WIDTH;
    let columns: [u8; 5] = [
        FONT5X7[char_index],
        FONT5X7[char_index + 1],
        FONT5X7[char_index + 2],
        FONT5X7[char_index + 3],
        FONT5X7[char_index + 4],
    ];
    assert(columns@ =~= glyph_columns(code));
    Some(columns)
}

/// The column bytes of a text: the cells of its characters one after the
/// other.
pub open spec fn text_columns(bytes: Seq<u8>) -> Seq<u8>
    decreases bytes.len(),
{
    if bytes.len() == 0 {
        Seq::empty()
    } else {
        text_columns(bytes.drop_last()) + glyph_columns(bytes.last())
    }
}

/// How many characters of `bytes` are rendered on a display of `limit`
/// characters: rendering stops at the end of the display, at the end of the
/// text, or before the first byte that has no glyph, whichever comes first.
pub open spec fn glyph_run(bytes: Seq<u8>, limit: nat) -> nat
    decreases limit,
{
    if limit == 0 || bytes.len() == 0 || !has_glyph(bytes[0]) {
        0
    } else {
        1 + glyph_run(bytes.drop_first(), (limit - 1) as nat)
    }
}

/// Five column bytes for each character.
pub proof fn lemma_text_columns_len(bytes: Seq<u8>)
    ensures
        text_columns(bytes).len() == CHAR_WIDTH * bytes.len(),
    decreases bytes.len(),
{
    if bytes.len() > 0 {
        lemma_text_columns_len(bytes.drop_last());
    }
}

/// Rendering stops at `stop` if all bytes before it have a glyph and it is
/// the end of the display, the end of the text, or a byte without a glyph.
pub proof fn lemma_glyph_run_stops(bytes: Seq<u8>, limit: nat, stop: nat)
    requires
        stop <= limit,
        stop <= bytes.len(),
        forall|j: int| 0 <= j < stop ==> has_glyph(#[trigger] bytes[j]),
        stop == limit || stop == bytes.len() || !has_glyph(bytes[stop as int]),
    ensures
        glyph_run(bytes, limit) == stop,
    decreases stop,
{
    if stop > 0 {
        let rest = bytes.drop_first();
        assert forall|j: int| 0 <= j < stop - 1 implies has_glyph(#[trigger] rest[j]) by {
            assert(rest[j] == bytes[j + 1]);
        }
        if stop < bytes.len() {
            assert(rest[stop - 1] == bytes[stop as int]);
        }
        assert(has_glyph(bytes[0]));
        lemma_glyph_run_stops(rest, (limit - 1) as nat, (stop - 1) as nat);
    }
}

/// A byte below the first code of the font ends the rendering: if the bytes
/// before position `i` all have glyphs and the byte at `i` is below
/// [`ascii_start`], exactly the first `i` characters are rendered, which are
/// `5 * i` columns; nothing is shifted in for the cells from `i` on.
pub proof fn lemma_early_stop(bytes: Seq<u8>, limit: nat, i: nat)
    requires
        i < limit,
        i < bytes.len(),
        bytes[i as int] < ascii_start(),
        forall|j: int| 0 <= j < i ==> has_glyph(#[trigger] bytes[j]),
    ensures
        glyph_run(bytes, limit) == i,
        text_columns(bytes.take(glyph_run(bytes, limit) as int)) == text_columns(
            bytes.take(i as int),
        ),
        text_columns(bytes.take(i as int)).len() == CHAR_WIDTH * i,
{
    lemma_glyph_run_stops(bytes, limit, i);
    lemma_text_columns_len(bytes.take(i as int));
}

/// Whether every byte of `text` has a glyph.
pub open spec fn printable(text: Seq<u8>) -> bool {
    forall|i: int| 0 <= i < text.len() ==> has_glyph(#[trigger] text[i])
}

/// A text of glyphs that is as long as the display is rendered in full.
pub proof fn lemma_printable_in_full(text: Seq<u8>, limit: nat)
    requires
        printable(text),
        text.len() == limit,
    ensures
        glyph_run(text, limit) == limit,
        text.take(glyph_run(text, limit) as int) == text,
{
    lemma_glyph_run_stops(text, limit, limit);
    assert(text.take(limit as int) =~= text);
}

} // verus!
