//! Mathematical model of the text renderer: glyph blitting through the
//! pixel engine, the line-wrapping layout of `print`, and the laws that
//! hold of them (the glyph round trip and the bottom-edge truncation).

use vstd::prelude::*;

use crate::font::Font;
use crate::font::GLYPH_HEIGHT;
use crate::font::GLYPH_WIDTH;
use crate::font::lemma_position_in_bounds;
use crate::font::spec_glyph_index;
use crate::font::spec_position;
use crate::framebuffer::lemma_set_pixel_frame;
use crate::framebuffer::lemma_set_pixel_len;
use crate::framebuffer::lemma_set_pixel_out_of_range;
use crate::framebuffer::lemma_set_pixel_read_back;
use crate::framebuffer::pixel_at;
use crate::framebuffer::spec_set_pixel;
use crate::geometry::BUFFER_LEN;
use crate::geometry::LCDHEIGHT;
use crate::geometry::LCDWIDTH;
use crate::geometry::Orientation;
use crate::geometry::in_range;
use crate::geometry::lemma_far_out_of_range;

verus! {

/// The 16-bit code a character is looked up by: its scalar value
/// truncated to 16 bits.
pub open spec fn spec_char_code(c: char) -> u16 {
    (c as u32) as u16
}

/// Bit `k` of a glyph row byte, most-significant bit leftmost.
pub open spec fn glyph_bit(b: u8, k: int) -> bool {
    b & (0x80u8 >> (k as u8)) != 0
}

/// The buffer after writing the first `k` pixels of one glyph row whose
/// byte is `b`, at pixel origin `(xp, yp)`.
pub open spec fn spec_blit_row(
    buf: Seq<u8>,
    o: Orientation,
    inverse: bool,
    xp: int,
    yp: int,
    b: u8,
    k: int,
) -> Seq<u8>
    decreases k,
{
    if k <= 0 {
        buf
    } else {
        spec_set_pixel(
            spec_blit_row(buf, o, inverse, xp, yp, b, k - 1),
            o,
            inverse,
            xp + (k - 1),
            yp,
            glyph_bit(b, k - 1),
        )
    }
}

/// The buffer after writing the first `r` rows of the glyph whose rows
/// start at `bitmap[base]`, each row 8 pixels wide.
pub open spec fn spec_blit_glyph(
    buf: Seq<u8>,
    o: Orientation,
    inverse: bool,
    xp: int,
    yp: int,
    bitmap: Seq<u8>,
    base: int,
    r: int,
) -> Seq<u8>
    decreases r,
{
    if r <= 0 {
        buf
    } else {
        spec_blit_row(
            spec_blit_glyph(buf, o, inverse, xp, yp, bitmap, base, r - 1),
            o,
            inverse,
            xp,
            yp + (r - 1),
            bitmap[base + (r - 1)],
            8,
        )
    }
}

/// The buffer after rendering one character at character cell `(x, y)`:
/// the glyph of the first matching table entry, or the fallback index when
/// the codepoint is absent.  A glyph whose cell lies beyond the end of the
/// bitmap draws nothing.
pub open spec fn spec_print_char(
    buf: Seq<u8>,
    font: Font,
    spacing: int,
    o: Orientation,
    inverse: bool,
    x: int,
    y: int,
    c: char,
) -> Seq<u8> {
    let idx = spec_glyph_index(font.encoding@, spec_char_code(c));
    let xp = x * (GLYPH_WIDTH as int + spacing);
    let yp = y * (GLYPH_HEIGHT as int);
    if idx * (GLYPH_HEIGHT as int) + (GLYPH_HEIGHT as int) <= font.bitmap@.len() {
        spec_blit_glyph(buf, o, inverse, xp, yp, font.bitmap@, idx * (GLYPH_HEIGHT as int), GLYPH_HEIGHT as int)
    } else {
        buf
    }
}

/// Whether a cursor column wraps: its left edge would reach or pass the
/// physical width.
pub open spec fn spec_wraps(spacing: int, xc: int) -> bool {
    xc * (GLYPH_WIDTH as int + spacing) >= LCDWIDTH as int
}

/// Whether a cursor row stops rendering: its top edge would reach or pass
/// the physical height.
pub open spec fn spec_stops(yc: int) -> bool {
    yc * (GLYPH_HEIGHT as int) >= LCDHEIGHT as int
}

/// The buffer after printing `s` from character cell `(xc, yc)`: each
/// character is placed, then the column advances, wrapping to column 0 of
/// the next row when the next cell would pass the right edge and stopping
/// (dropping the rest of the text) when that next row would pass the
/// bottom edge.
pub open spec fn spec_print(
    buf: Seq<u8>,
    font: Font,
    spacing: int,
    o: Orientation,
    inverse: bool,
    xc: int,
    yc: int,
    s: Seq<char>,
) -> Seq<u8>
    decreases s.len(),
{
    if s.len() == 0 {
        buf
    } else {
        let b2 = spec_print_char(buf, font, spacing, o, inverse, xc, yc, s[0]);
        if spec_wraps(spacing, xc + 1) {
            if spec_stops(yc + 1) {
                b2
            } else {
                spec_print(b2, font, spacing, o, inverse, 0, yc + 1, s.drop_first())
            }
        } else {
            spec_print(b2, font, spacing, o, inverse, xc + 1, yc, s.drop_first())
        }
    }
}

/// Whether printing `n` characters from cursor `(xc, yc)` runs past the
/// bottom edge, so that any further characters are dropped.  This depends
/// only on the cursor and the count, never on the characters themselves.
pub open spec fn spec_print_stopped(spacing: int, xc: int, yc: int, n: nat) -> bool
    decreases n,
{
    if n == 0 {
        false
    } else if spec_wraps(spacing, xc + 1) {
        spec_stops(yc + 1) || spec_print_stopped(spacing, 0, yc + 1, (n - 1) as nat)
    } else {
        spec_print_stopped(spacing, xc + 1, yc, (n - 1) as nat)
    }
}

/// A product only grows when both nonnegative factors grow.
pub proof fn lemma_mul_ge(a: int, b: int, a0: int, b0: int)
    by (nonlinear_arith)
    requires
        a >= a0,
        b >= b0,
        a0 >= 0,
        b0 >= 0,
    ensures
        a * b >= a0 * b0,
{
}

/// With zero spacing, exactly 14 six-pixel cells fit in an 84-pixel row:
/// the cursor wraps precisely from column 14 on.
pub proof fn lemma_fourteen_cells_per_row(xc: int)
    requires
        xc >= 0,
    ensures
        spec_wraps(0, xc) <==> xc >= 14,
{
}

/// A product of nonnegative factors is bounded by the product of their
/// bounds.
pub proof fn lemma_mul_le(a: int, b: int, a0: int, b0: int)
    by (nonlinear_arith)
    requires
        0 <= a <= a0,
        0 <= b <= b0,
    ensures
        a * b <= a0 * b0,
{
}

/// A row blit whose origin lies at or beyond 84 on either axis writes
/// nothing, under every orientation.
pub proof fn lemma_blit_row_out(
    buf: Seq<u8>,
    o: Orientation,
    inverse: bool,
    xp: int,
    yp: int,
    b: u8,
    k: int,
)
    requires
        xp >= 84 || yp >= 84,
    ensures
        spec_blit_row(buf, o, inverse, xp, yp, b, k) == buf,
    decreases k,
{
    if k > 0 {
        lemma_blit_row_out(buf, o, inverse, xp, yp, b, k - 1);
        lemma_far_out_of_range(o, xp + (k - 1), yp);
        lemma_set_pixel_out_of_range(buf, o, inverse, xp + (k - 1), yp, glyph_bit(b, k - 1));
    }
}

/// A glyph blit whose origin lies at or beyond 84 on either axis writes
/// nothing, under every orientation.
pub proof fn lemma_blit_glyph_out(
    buf: Seq<u8>,
    o: Orientation,
    inverse: bool,
    xp: int,
    yp: int,
    bitmap: Seq<u8>,
    base: int,
    r: int,
)
    requires
        xp >= 84 || yp >= 84,
    ensures
        spec_blit_glyph(buf, o, inverse, xp, yp, bitmap, base, r) == buf,
    decreases r,
{
    if r > 0 {
        lemma_blit_glyph_out(buf, o, inverse, xp, yp, bitmap, base, r - 1);
        lemma_blit_row_out(buf, o, inverse, xp, yp + (r - 1), bitmap[base + (r - 1)], 8);
    }
}

/// After blitting the first `k` pixels of a row: those of them that land
/// in range hold their glyph bit (combined with the inversion flag), and
/// every other in-range coordinate is untouched.
pub proof fn lemma_blit_row_pixels(
    buf: Seq<u8>,
    o: Orientation,
    inverse: bool,
    xp: int,
    yp: int,
    b: u8,
    k: int,
)
    requires
        buf.len() == BUFFER_LEN,
        0 <= k <= 8,
    ensures
        spec_blit_row(buf, o, inverse, xp, yp, b, k).len() == BUFFER_LEN,
        forall|j: int|
            0 <= j < k && in_range(o, xp + j, yp) ==> pixel_at(
                spec_blit_row(buf, o, inverse, xp, yp, b, k),
                o,
                xp + j,
                yp,
            ) == (glyph_bit(b, j) != inverse),
        forall|x2: int, y2: int|
            in_range(o, x2, y2) && (y2 != yp || x2 < xp || x2 >= xp + k) ==> pixel_at(
                spec_blit_row(buf, o, inverse, xp, yp, b, k),
                o,
                x2,
                y2,
            ) == pixel_at(buf, o, x2, y2),
    decreases k,
{
    if k > 0 {
        lemma_blit_row_pixels(buf, o, inverse, xp, yp, b, k - 1);
        let prev = spec_blit_row(buf, o, inverse, xp, yp, b, k - 1);
        let cur = spec_blit_row(buf, o, inverse, xp, yp, b, k);
        if in_range(o, xp + (k - 1), yp) {
            lemma_set_pixel_read_back(prev, o, inverse, xp + (k - 1), yp, glyph_bit(b, k - 1));
        } else {
            lemma_set_pixel_out_of_range(prev, o, inverse, xp + (k - 1), yp, glyph_bit(b, k - 1));
        }
        assert forall|j: int| 0 <= j < k - 1 && in_range(o, xp + j, yp) implies pixel_at(
            cur,
            o,
            xp + j,
            yp,
        ) == (glyph_bit(b, j) != inverse) by {
            lemma_set_pixel_frame(prev, o, inverse, xp + (k - 1), yp, glyph_bit(b, k - 1), xp + j, yp);
        }
        assert forall|x2: int, y2: int|
            in_range(o, x2, y2) && (y2 != yp || x2 < xp || x2 >= xp + k) implies pixel_at(
            cur,
            o,
            x2,
            y2,
        ) == pixel_at(buf, o, x2, y2) by {
            lemma_set_pixel_frame(prev, o, inverse, xp + (k - 1), yp, glyph_bit(b, k - 1), x2, y2);
        }
        lemma_set_pixel_len(prev, o, inverse, xp + (k - 1), yp, glyph_bit(b, k - 1));
    }
}

/// After blitting the first `r` rows of a glyph: every in-range pixel of
/// the written rows holds its bitmap bit (combined with the inversion
/// flag), and every in-range coordinate outside the written cell is
/// untouched.
pub proof fn lemma_blit_glyph_pixels(
    buf: Seq<u8>,
    o: Orientation,
    inverse: bool,
    xp: int,
    yp: int,
    bitmap: Seq<u8>,
    base: int,
    r: int,
)
    requires
        buf.len() == BUFFER_LEN,
        0 <= r <= GLYPH_HEIGHT,
    ensures
        spec_blit_glyph(buf, o, inverse, xp, yp, bitmap, base, r).len() == BUFFER_LEN,
        forall|i: int, j: int|
            0 <= i < r && 0 <= j < 8 && in_range(o, xp + j, yp + i) ==> #[trigger] pixel_at(
                spec_blit_glyph(buf, o, inverse, xp, yp, bitmap, base, r),
                o,
                xp + j,
                yp + i,
            ) == (glyph_bit(bitmap[base + i], j) != inverse),
        forall|x2: int, y2: int|
            in_range(o, x2, y2) && !(yp <= y2 < yp + r && xp <= x2 < xp + 8) ==> pixel_at(
                spec_blit_glyph(buf, o, inverse, xp, yp, bitmap, base, r),
                o,
                x2,
                y2,
            ) == pixel_at(buf, o, x2, y2),
    decreases r,
{
    if r > 0 {
        lemma_blit_glyph_pixels(buf, o, inverse, xp, yp, bitmap, base, r - 1);
        let prev = spec_blit_glyph(buf, o, inverse, xp, yp, bitmap, base, r - 1);
        let cur = spec_blit_glyph(buf, o, inverse, xp, yp, bitmap, base, r);
        let rb = bitmap[base + (r - 1)];
        lemma_blit_row_pixels(prev, o, inverse, xp, yp + (r - 1), rb, 8);
        assert forall|i: int, j: int|
            0 <= i < r && 0 <= j < 8 && in_range(o, xp + j, yp + i) implies #[trigger] pixel_at(
            cur,
            o,
            xp + j,
            yp + i,
        ) == (glyph_bit(bitmap[base + i], j) != inverse) by {
            if i < r - 1 {
                assert(pixel_at(cur, o, xp + j, yp + i) == pixel_at(prev, o, xp + j, yp + i));
            }
        }
    }
}

/// The glyph round trip: rendering a character that is present in the
/// table reproduces its bitmap exactly — reading back any in-range pixel
/// of the glyph cell recovers the corresponding bitmap bit, combined with
/// the inversion flag.
pub proof fn lemma_print_char_round_trip(
    buf: Seq<u8>,
    font: Font,
    spacing: int,
    o: Orientation,
    inverse: bool,
    x: int,
    y: int,
    c: char,
    i: int,
    row: int,
    col: int,
)
    requires
        buf.len() == BUFFER_LEN,
        font.wf(),
        spacing >= 0,
        spec_position(font.encoding@, spec_char_code(c)) == Some(i),
        0 <= row < GLYPH_HEIGHT,
        0 <= col < 8,
        in_range(o, x * (GLYPH_WIDTH as int + spacing) + col, y * (GLYPH_HEIGHT as int) + row),
    ensures
        pixel_at(
            spec_print_char(buf, font, spacing, o, inverse, x, y, c),
            o,
            x * (GLYPH_WIDTH as int + spacing) + col,
            y * (GLYPH_HEIGHT as int) + row,
        ) == (glyph_bit(font.bitmap@[i * (GLYPH_HEIGHT as int) + row], col) != inverse),
{
    lemma_position_in_bounds(font.encoding@, spec_char_code(c), i);
    assert(i * (GLYPH_HEIGHT as int) + (GLYPH_HEIGHT as int) == (i + 1) * (GLYPH_HEIGHT as int))
        by (nonlinear_arith);
    assert((i + 1) * (GLYPH_HEIGHT as int) <= font.encoding@.len() * (GLYPH_HEIGHT as int))
        by (nonlinear_arith)
        requires
            i + 1 <= font.encoding@.len(),
    ;
    let xp = x * (GLYPH_WIDTH as int + spacing);
    let yp = y * (GLYPH_HEIGHT as int);
    lemma_blit_glyph_pixels(
        buf,
        o,
        inverse,
        xp,
        yp,
        font.bitmap@,
        i * (GLYPH_HEIGHT as int),
        GLYPH_HEIGHT as int,
    );
}

/// Bottom-edge truncation: once the layout has stopped within `s`, any
/// characters appended after `s` change nothing — they are dropped
/// silently rather than written out of bounds.
pub proof fn lemma_print_truncates(
    buf: Seq<u8>,
    font: Font,
    spacing: int,
    o: Orientation,
    inverse: bool,
    xc: int,
    yc: int,
    s: Seq<char>,
    t: Seq<char>,
)
    requires
        spec_print_stopped(spacing, xc, yc, s.len()),
    ensures
        spec_print(buf, font, spacing, o, inverse, xc, yc, s + t) == spec_print(
            buf,
            font,
            spacing,
            o,
            inverse,
            xc,
            yc,
            s,
        ),
    decreases s.len(),
{
    assert(s.len() > 0);
    assert((s + t)[0] == s[0]);
    assert((s + t).drop_first() =~= s.drop_first() + t);
    assert((s + t).len() > 0);
    let b2 = spec_print_char(buf, font, spacing, o, inverse, xc, yc, s[0]);
    if spec_wraps(spacing, xc + 1) {
        if !spec_stops(yc + 1) {
            lemma_print_truncates(b2, font, spacing, o, inverse, 0, yc + 1, s.drop_first(), t);
        }
    } else {
        lemma_print_truncates(b2, font, spacing, o, inverse, xc + 1, yc, s.drop_first(), t);
    }
}

} // verus!
