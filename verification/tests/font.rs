use hcms_29xx::font5x7::{font_ascii_start_index, glyph};
use hcms_29xx::{CHAR_HEIGHT, CHAR_WIDTH, FONT5X7};

#[test]
fn start_index_is_first_entry_minus_one() {
    assert_eq!(font_ascii_start_index(), FONT5X7[0] - 1);
    assert_eq!(font_ascii_start_index(), 0x1F);
}

#[test]
fn cell_geometry() {
    assert_eq!(CHAR_WIDTH, 5);
    assert_eq!(CHAR_HEIGHT, 7);
    assert_eq!(FONT5X7.len() % CHAR_WIDTH, 0);
}

#[test]
fn glyph_lookup_follows_the_offset_rule() {
    for code in 0x1Fu8..=0x7F {
        let offset = (code - font_ascii_start_index()) as usize * 5;
        let columns = glyph(code).unwrap();
        assert_eq!(&columns[..], &FONT5X7[offset..offset + 5]);
    }
}

#[test]
fn known_glyphs() {
    assert_eq!(glyph(b' '), Some([0x00, 0x00, 0x00, 0x00, 0x00]));
    assert_eq!(glyph(b'A'), Some([0x7E, 0x11, 0x11, 0x11, 0x7E]));
    assert_eq!(glyph(b'0'), Some([0x3E, 0x51, 0x49, 0x45, 0x3E]));
    assert_eq!(glyph(b'-'), Some([0x08, 0x08, 0x08, 0x08, 0x08]));
}

#[test]
fn codes_outside_the_font_have_no_glyph() {
    assert_eq!(glyph(0x00), None);
    assert_eq!(glyph(0x1E), None);
    assert_eq!(glyph(0x80), None);
    assert_eq!(glyph(0xFF), None);
}

#[test]
fn every_column_uses_seven_rows() {
    for group in FONT5X7[5..].chunks(5) {
        for column in group {
            assert_eq!(column & 0x80, 0);
        }
    }
}
