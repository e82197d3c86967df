//! Mathematical model of the framebuffer: what one pixel write does to the
//! byte sequence, how a pixel is read back, and the facts relating the two.

use vstd::prelude::*;

use crate::geometry::BUFFER_LEN;
use crate::geometry::LCDHEIGHT;
use crate::geometry::LCDWIDTH;
use crate::geometry::Orientation;
use crate::geometry::byte_index;
use crate::geometry::in_range;
use crate::geometry::lemma_phys_injective;
use crate::geometry::phys;

verus! {

/// The single-bit mask selecting physical row `py` inside its band byte.
pub open spec fn pixel_mask(py: int) -> u8 {
    1u8 << ((py % 8) as u8)
}

/// The buffer after writing `value` at logical `(x, y)`: a no-op when the
/// transformed coordinate is out of range, otherwise the bit of the target
/// byte is set when `value != inverse` and cleared otherwise.
pub open spec fn spec_set_pixel(
    buf: Seq<u8>,
    o: Orientation,
    inverse: bool,
    x: int,
    y: int,
    value: bool,
) -> Seq<u8> {
    if in_range(o, x, y) {
        let p = phys(o, x, y);
        let i = byte_index(p.0, p.1);
        if value != inverse {
            buf.update(i, buf[i] | pixel_mask(p.1))
        } else {
            buf.update(i, buf[i] & !pixel_mask(p.1))
        }
    } else {
        buf
    }
}

/// The stored bit for logical `(x, y)`, read through the same transform.
pub open spec fn pixel_at(buf: Seq<u8>, o: Orientation, x: int, y: int) -> bool
    recommends
        in_range(o, x, y),
{
    let p = phys(o, x, y);
    (buf[byte_index(p.0, p.1)] >> ((p.1 % 8) as u8)) & 1 == 1
}

/// The all-zero framebuffer.
pub open spec fn zero_buffer() -> Seq<u8> {
    Seq::new(BUFFER_LEN as nat, |i: int| 0u8)
}

proof fn lemma_bit_write_read(b: u8, n: u8)
    by (bit_vector)
    requires
        n < 8,
    ensures
        ((b | (1u8 << n)) >> n) & 1 == 1,
        ((b & !(1u8 << n)) >> n) & 1 == 0,
{
}

proof fn lemma_bit_write_other(b: u8, n: u8, m: u8)
    by (bit_vector)
    requires
        n < 8,
        m < 8,
        n != m,
    ensures
        ((b | (1u8 << n)) >> m) & 1 == (b >> m) & 1,
        ((b & !(1u8 << n)) >> m) & 1 == (b >> m) & 1,
{
}

/// A byte index together with the bit offset determines the physical
/// coordinate: equal byte indices force equal columns and equal bands.
proof fn lemma_byte_index_injective(px1: int, py1: int, px2: int, py2: int)
    requires
        0 <= px1 < LCDWIDTH,
        0 <= px2 < LCDWIDTH,
        0 <= py1 < LCDHEIGHT,
        0 <= py2 < LCDHEIGHT,
        byte_index(px1, py1) == byte_index(px2, py2),
    ensures
        px1 == px2,
        py1 / 8 == py2 / 8,
{
    let d1 = py1 / 8;
    let d2 = py2 / 8;
    assert(0 <= d1 <= 5);
    assert(0 <= d2 <= 5);
    assert(px1 - px2 == (d2 - d1) * 84);
    assert(-84 < px1 - px2 < 84);
    assert(d1 == d2) by (nonlinear_arith)
        requires
            px1 - px2 == (d2 - d1) * 84,
            -84 < px1 - px2 < 84,
    ;
}

/// Writing an in-range pixel and reading it back yields the written value
/// combined with the inversion flag.
pub proof fn lemma_set_pixel_read_back(
    buf: Seq<u8>,
    o: Orientation,
    inverse: bool,
    x: int,
    y: int,
    value: bool,
)
    requires
        buf.len() == BUFFER_LEN,
        in_range(o, x, y),
    ensures
        pixel_at(spec_set_pixel(buf, o, inverse, x, y, value), o, x, y) == (value != inverse),
{
    let p = phys(o, x, y);
    let i = byte_index(p.0, p.1);
    assert(0 <= p.1 / 8 <= 5);
    assert(0 <= i < BUFFER_LEN);
    let n = (p.1 % 8) as u8;
    assert(n < 8);
    lemma_bit_write_read(buf[i], n);
}

/// A pixel write leaves every other logical coordinate's stored bit as it
/// was, whether or not the written coordinate is in range.
pub proof fn lemma_set_pixel_frame(
    buf: Seq<u8>,
    o: Orientation,
    inverse: bool,
    x: int,
    y: int,
    value: bool,
    x2: int,
    y2: int,
)
    requires
        buf.len() == BUFFER_LEN,
        in_range(o, x2, y2),
        (x2, y2) != (x, y),
    ensures
        pixel_at(spec_set_pixel(buf, o, inverse, x, y, value), o, x2, y2) == pixel_at(
            buf,
            o,
            x2,
            y2,
        ),
{
    if in_range(o, x, y) {
        lemma_phys_injective(o, x, y, x2, y2);
        let p = phys(o, x, y);
        let q = phys(o, x2, y2);
        let i = byte_index(p.0, p.1);
        let j = byte_index(q.0, q.1);
        assert(0 <= p.1 / 8 <= 5);
        assert(0 <= q.1 / 8 <= 5);
        assert(0 <= i < BUFFER_LEN);
        assert(0 <= j < BUFFER_LEN);
        let n = (p.1 % 8) as u8;
        let m = (q.1 % 8) as u8;
        if i == j {
            lemma_byte_index_injective(p.0, p.1, q.0, q.1);
            assert(p.1 != q.1);
            assert(p.1 == 8 * (p.1 / 8) + p.1 % 8);
            assert(q.1 == 8 * (q.1 / 8) + q.1 % 8);
            assert(n != m);
            lemma_bit_write_other(buf[i], n, m);
        }
    }
}

/// Out-of-range coordinates never change the buffer.
pub proof fn lemma_set_pixel_out_of_range(
    buf: Seq<u8>,
    o: Orientation,
    inverse: bool,
    x: int,
    y: int,
    value: bool,
)
    requires
        !in_range(o, x, y),
    ensures
        spec_set_pixel(buf, o, inverse, x, y, value) == buf,
{
}

/// Every in-range read of the all-zero buffer yields an unset pixel.
pub proof fn lemma_zero_buffer_reads_false(o: Orientation, x: int, y: int)
    requires
        in_range(o, x, y),
    ensures
        !pixel_at(zero_buffer(), o, x, y),
{
    let p = phys(o, x, y);
    assert(0 <= p.1 / 8 <= 5);
    assert(0 <= byte_index(p.0, p.1) < BUFFER_LEN);
    let n = (p.1 % 8) as u8;
    assert((0u8 >> n) & 1 == 0) by (bit_vector);
}

/// A pixel write preserves the buffer length.
pub proof fn lemma_set_pixel_len(
    buf: Seq<u8>,
    o: Orientation,
    inverse: bool,
    x: int,
    y: int,
    value: bool,
)
    requires
        buf.len() == BUFFER_LEN,
    ensures
        spec_set_pixel(buf, o, inverse, x, y, value).len() == buf.len(),
{
    if in_range(o, x, y) {
        let p = phys(o, x, y);
        assert(0 <= p.1 / 8 <= 5);
        assert(0 <= byte_index(p.0, p.1) < BUFFER_LEN);
    }
}

} // verus!
