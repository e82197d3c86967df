//! Framebuffer, orientation and text-rendering behaviour, observed
//! through the public driver surface.

use pcd8544::Font;
use pcd8544::Orientation;
use pcd8544::PCD8544;

fn fresh(orient: Orientation) -> PCD8544 {
    let mut d = PCD8544::new(orient);
    // Drop the queued initialization sequence; these tests look at the
    // framebuffer only.
    let _ = d.take_pending();
    d
}

fn all_orientations() -> Vec<Orientation> {
    vec![
        Orientation::Landscape(false),
        Orientation::Landscape(true),
        Orientation::Portrait(false),
        Orientation::Portrait(true),
    ]
}

/// Logical width and height of the pixel grid under an orientation, as
/// the coordinate transform defines them.
fn logical_dims(orient: Orientation) -> (usize, usize) {
    match orient {
        Orientation::Landscape(false) | Orientation::Portrait(true) => (84, 48),
        Orientation::Landscape(true) | Orientation::Portrait(false) => (48, 84),
    }
}

#[test]
fn set_pixel_reads_back_in_every_orientation() {
    for orient in all_orientations() {
        let mut d = fresh(orient);
        let (w, h) = logical_dims(orient);
        let probes = [(0usize, 0usize), (1, 2), (w - 1, 0), (0, h - 1), (w - 1, h - 1), (7, 11)];
        for &(x, y) in probes.iter() {
            d.set_pixel(x, y, true);
            assert_eq!(d.get_pixel(x, y), Some(true), "{:?} ({}, {})", orient, x, y);
            d.set_pixel(x, y, false);
            assert_eq!(d.get_pixel(x, y), Some(false), "{:?} ({}, {})", orient, x, y);
        }
    }
}

#[test]
fn set_pixel_reads_back_xor_inversion_flag() {
    for orient in all_orientations() {
        let mut d = fresh(orient);
        d.inverse = true;
        d.set_pixel(3, 4, true);
        assert_eq!(d.get_pixel(3, 4), Some(false));
        d.set_pixel(3, 4, false);
        assert_eq!(d.get_pixel(3, 4), Some(true));
    }
}

#[test]
fn out_of_range_writes_leave_buffer_unchanged() {
    // One coordinate past each logical edge of each orientation, plus a
    // far-out one.
    for orient in all_orientations() {
        let mut d = fresh(orient);
        d.set_pixel(2, 2, true);
        let before = d.buffer_bytes().clone();
        let (w, h) = logical_dims(orient);
        for &(x, y) in [(w, 0), (0, h), (w, h), (usize::MAX, usize::MAX), (1000, 3)].iter() {
            d.set_pixel(x, y, true);
            assert_eq!(d.buffer_bytes(), &before, "{:?} ({}, {})", orient, x, y);
            assert_eq!(d.get_pixel(x, y), None);
        }
    }
}

#[test]
fn clear_zeroes_everything_regardless_of_prior_state() {
    let mut d = fresh(Orientation::Landscape(false));
    for x in 0..84 {
        d.set_pixel(x, x % 48, true);
    }
    d.clear();
    assert_eq!(d.buffer_bytes().len(), 504);
    assert!(d.buffer_bytes().iter().all(|&b| b == 0));
    for x in 0..84 {
        assert_eq!(d.get_pixel(x, x % 48), Some(false));
    }
}

#[test]
fn pixel_packing_matches_band_layout() {
    // Byte (x, band) packs rows band*8 .. band*8+7, bit n = row band*8+n.
    let mut d = fresh(Orientation::Landscape(false));
    d.set_pixel(0, 0, true);
    assert_eq!(d.buffer_bytes()[0], 0x01);
    d.set_pixel(0, 7, true);
    assert_eq!(d.buffer_bytes()[0], 0x81);
    d.set_pixel(5, 9, true);
    assert_eq!(d.buffer_bytes()[84 + 5], 0x02);
    d.set_pixel(83, 47, true);
    assert_eq!(d.buffer_bytes()[5 * 84 + 83], 0x80);
}

/// A small font: 'A' is glyph 0 with a recognizable asymmetric pattern,
/// 'B' is glyph 1 with full rows.
fn tiny_font() -> Font {
    let encoding = vec!['A' as u16, 'B' as u16];
    let mut bitmap = vec![
        0b1011_0010,
        0b0100_1101,
        0b1111_0000,
        0b0000_1111,
        0b1000_0001,
        0b0111_1110,
        0b1100_0011,
        0b0011_1100,
        0b1010_1010,
        0b0101_0101,
        0b1111_1111,
        0b0000_0000,
    ];
    bitmap.extend(vec![0xFF; 12]);
    Font { encoding, bitmap }
}

#[test]
fn rendered_glyph_reproduces_bitmap_exactly() {
    for orient in all_orientations() {
        let mut d = fresh(orient);
        let font = tiny_font();
        d.print_char(0, 0, 'A', &font);
        for r in 0..12 {
            for k in 0..8 {
                let expected = (font.bitmap[r] & (0x80 >> k)) != 0;
                assert_eq!(
                    d.get_pixel(k, r),
                    Some(expected),
                    "{:?} row {} col {}",
                    orient,
                    r,
                    k
                );
            }
        }
    }
}

#[test]
fn rendered_glyph_respects_inversion_flag() {
    let mut d = fresh(Orientation::Landscape(false));
    d.inverse = true;
    let font = tiny_font();
    d.print_char(0, 0, 'A', &font);
    for r in 0..12 {
        for k in 0..8 {
            let expected = (font.bitmap[r] & (0x80 >> k)) == 0;
            assert_eq!(d.get_pixel(k, r), Some(expected));
        }
    }
}

#[test]
fn glyph_cell_origin_honours_spacing() {
    let mut d = fresh(Orientation::Landscape(false));
    d.char_spacing = 2;
    let font = tiny_font();
    // Cell (3, 2): origin (3 * (6 + 2), 2 * 12) = (24, 24).
    d.print_char(3, 2, 'B', &font);
    for r in 0..12 {
        for k in 0..8 {
            assert_eq!(d.get_pixel(24 + k, 24 + r), Some(true));
        }
    }
    assert_eq!(d.get_pixel(23, 24), Some(false));
    assert_eq!(d.get_pixel(32, 24), Some(false));
}

#[test]
fn absent_codepoint_with_small_table_draws_nothing() {
    // The fallback glyph index lies far beyond a two-glyph bitmap, so an
    // unknown character must leave the buffer untouched.
    let mut d = fresh(Orientation::Landscape(false));
    let font = tiny_font();
    d.set_pixel(1, 1, true);
    let before = d.buffer_bytes().clone();
    d.print_char(0, 0, 'Z', &font);
    assert_eq!(d.buffer_bytes(), &before);
}

#[test]
fn print_wraps_after_fourteen_characters() {
    // Width 84, glyph width 6, spacing 0: exactly 14 cells per row; the
    // 15th character lands at column 0 of the next row, none dropped.
    let mut d = fresh(Orientation::Landscape(false));
    let font = tiny_font();
    let s: String = std::iter::repeat('B').take(15).collect();
    d.print(0, 0, &s, &font);
    // All 14 cells of row 0 were drawn (their leftmost pixel is set).
    for cell in 0..14 {
        assert_eq!(d.get_pixel(cell * 6, 0), Some(true), "cell {}", cell);
    }
    // The rightmost column of row 0 is covered by the 14th glyph.
    assert_eq!(d.get_pixel(83, 0), Some(true));
    // The 15th character sits at column 0 of the next row...
    assert_eq!(d.get_pixel(0, 12), Some(true));
    assert_eq!(d.get_pixel(7, 12), Some(true));
    // ...and nothing was drawn beyond its 8-pixel cell there.
    assert_eq!(d.get_pixel(8, 12), Some(false));
}

#[test]
fn nonzero_spacing_changes_the_wrap_point() {
    // With spacing 1 a cell is 7 pixels wide, so only 12 characters fit
    // per row: the 13th wraps.
    let mut d = fresh(Orientation::Landscape(false));
    d.char_spacing = 1;
    let font = tiny_font();
    let s: String = std::iter::repeat('B').take(13).collect();
    d.print(0, 0, &s, &font);
    // The 12th character sits at column 11 (origin 77) of row 0...
    assert_eq!(d.get_pixel(77, 0), Some(true));
    // ...and the 13th opens row 1.
    assert_eq!(d.get_pixel(0, 12), Some(true));
    assert_eq!(d.get_pixel(8, 12), Some(false));
}

#[test]
fn print_truncates_past_the_bottom_edge() {
    // Portrait keeps logical rows 48..84 observable, so a character that
    // the bottom-edge rule drops can be told apart from a clipped one.
    let mut d = fresh(Orientation::Portrait(false));
    let font = tiny_font();
    let s: String = std::iter::repeat('B').take(60).collect();
    d.print(0, 0, &s, &font);
    // Character 43 opens row 3 (rows hold 14 characters each) and is
    // drawn at pixel rows 36..48.
    assert_eq!(d.get_pixel(0, 36), Some(true));
    // Character 57 would open row 4 at pixel rows 48..60 — in range in
    // portrait, but rendering stopped after row 3 was filled.
    assert_eq!(d.get_pixel(0, 48), Some(false));
    assert_eq!(d.get_pixel(0, 59), Some(false));
}

#[test]
fn print_starting_on_bottom_row_draws_that_row_only() {
    let mut d = fresh(Orientation::Landscape(false));
    let font = tiny_font();
    let s: String = std::iter::repeat('B').take(20).collect();
    d.print(0, 3, &s, &font);
    // Row 3 (pixel rows 36..47) was drawn...
    assert_eq!(d.get_pixel(0, 36), Some(true));
    assert_eq!(d.get_pixel(83, 36), Some(true));
    // ...and nothing wrapped back onto row 0.
    assert_eq!(d.get_pixel(0, 0), Some(false));
}

#[test]
fn orientation_change_affects_only_subsequent_writes() {
    let mut d = fresh(Orientation::Landscape(false));
    d.set_pixel(10, 0, true);
    let before = d.buffer_bytes().clone();
    d.orient = Orientation::Portrait(false);
    assert_eq!(d.buffer_bytes(), &before);
    // The same logical coordinate now addresses a different byte.
    d.set_pixel(10, 0, true);
    assert_ne!(d.buffer_bytes(), &before);
}
