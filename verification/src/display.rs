//! The display handle: the retained framebuffer, the current orientation
//! and render options, and the queue of protocol actions awaiting the
//! hardware.  Every operation of the driver surface lives here;
//! the unverified shell owns the bus and the two control lines, drains the
//! queue with [`PCD8544::take_pending`] and performs the actions in order.

use vstd::prelude::*;

use crate::font::FALLBACK_GLYPH_INDEX;
use crate::font::Font;
use crate::font::GLYPH_HEIGHT;
use crate::font::GLYPH_WIDTH;
use crate::font::lemma_position_in_bounds;
use crate::font::spec_position;
use crate::framebuffer::pixel_at;
use crate::framebuffer::pixel_mask;
use crate::framebuffer::spec_set_pixel;
use crate::framebuffer::zero_buffer;
use crate::geometry::BUFFER_LEN;
use crate::geometry::LCDHEIGHT;
use crate::geometry::LCDWIDTH;
use crate::geometry::Orientation;
use crate::geometry::byte_index;
use crate::geometry::in_range;
use crate::geometry::phys;
use crate::protocol::Action;
use crate::protocol::DEFAULT_BIAS;
use crate::protocol::DEFAULT_CONTRAST;
use crate::protocol::PCD8544_DISPLAYCONTROL;
use crate::protocol::PCD8544_DISPLAYNORMAL;
use crate::protocol::PCD8544_EXTENDEDINSTRUCTION;
use crate::protocol::PCD8544_FUNCTIONSET;
use crate::protocol::PCD8544_SETBIAS;
use crate::protocol::PCD8544_SETVOP;
use crate::protocol::PCD8544_SETXADDR;
use crate::protocol::PCD8544_SETYADDR;
use crate::protocol::bias_actions;
use crate::protocol::command_actions;
use crate::protocol::contrast_actions;
use crate::protocol::data_actions;
use crate::protocol::extended_actions;
use crate::protocol::reset_actions;
use crate::protocol::update_actions;
use crate::protocol::write_actions;
use crate::render::glyph_bit;
use crate::render::lemma_blit_glyph_out;
use crate::render::lemma_mul_ge;
use crate::render::lemma_mul_le;
use crate::render::spec_blit_glyph;
use crate::render::spec_blit_row;
use crate::render::spec_char_code;
use crate::render::spec_print;
use crate::render::spec_print_char;
use crate::render::spec_stops;
use crate::render::spec_wraps;

verus! {

/// The driver state for one display: the 504-byte framebuffer, the queued
/// protocol actions, and the three caller-tunable render options.
pub struct PCD8544 {
    /// The retained framebuffer; always exactly [`BUFFER_LEN`] bytes
    /// (the well-formedness [`PCD8544::wf`] every operation preserves).
    pub buffer: Vec<u8>,
    /// Protocol actions queued for the hardware shell.
    pub pending: Vec<Action>,
    /// The active logical-to-physical coordinate transform.
    pub orient: Orientation,
    /// Extra pixels between character cells.
    pub char_spacing: usize,
    /// When set, the sense of every subsequent pixel write is flipped.
    pub inverse: bool,
}

fn zeroed_buffer() -> (r: Vec<u8>)
    ensures
        r@ == zero_buffer(),
{
    let mut v: Vec<u8> = Vec::new();
    let mut i: usize = 0;
    while i < BUFFER_LEN
        invariant
            i <= BUFFER_LEN,
            v@.len() == i,
            forall|j: int| 0 <= j < i ==> v@[j] == 0u8,
        decreases BUFFER_LEN - i,
    {
        v.push(0u8);
        i += 1;
    }
    proof {
        assert(v@ =~= zero_buffer());
    }
    v
}

/// The 16-bit code a character is looked up by.
fn char_code(c: char) -> (r: u16)
    ensures
        r == spec_char_code(c),
{
    #[verifier::truncate]
    ((c as u32) as u16)
}

impl PCD8544 {
    /// The framebuffer always holds exactly one bit per physical pixel.
    pub open spec fn wf(&self) -> bool {
        self.buffer@.len() == BUFFER_LEN
    }

    /// The framebuffer contents.
    pub open spec fn buffer_view(&self) -> Seq<u8> {
        self.buffer@
    }

    /// The protocol actions queued for the hardware.
    pub open spec fn pending_view(&self) -> Seq<Action> {
        self.pending@
    }

    /// A fresh handle: zeroed framebuffer, default options, and the
    /// initialization sequence queued — a reset pulse, the default
    /// contrast, then the default bias.
    pub fn new(orient: Orientation) -> (r: Self)
        ensures
            r.wf(),
            r.buffer_view() == zero_buffer(),
            r.pending_view() == reset_actions() + contrast_actions(DEFAULT_CONTRAST)
                + bias_actions(DEFAULT_BIAS),
            r.orient == orient,
            r.char_spacing == 0,
            r.inverse == false,
    {
        let mut res = PCD8544 {
            buffer: zeroed_buffer(),
            pending: Vec::new(),
            orient,
            char_spacing: 0,
            inverse: false,
        };
        res.reset();
        res.set_contrast(DEFAULT_CONTRAST);
        res.set_bias(DEFAULT_BIAS);
        proof {
            assert(res.pending@ =~= reset_actions() + contrast_actions(DEFAULT_CONTRAST)
                + bias_actions(DEFAULT_BIAS));
        }
        res
    }

    /// Hand the queued actions to the caller, emptying the queue.
    pub fn take_pending(&mut self) -> (r: Vec<Action>)
        ensures
            r@ == old(self).pending_view(),
            final(self).pending_view() == Seq::<Action>::empty(),
            final(self).buffer_view() == old(self).buffer_view(),
            final(self).orient == old(self).orient,
            final(self).char_spacing == old(self).char_spacing,
            final(self).inverse == old(self).inverse,
    {
        let mut r: Vec<Action> = Vec::new();
        core::mem::swap(&mut r, &mut self.pending);
        proof {
            assert(self.pending@ =~= Seq::<Action>::empty());
        }
        r
    }

    /// Queue the reset pulse: reset line low, settle, reset line high.
    pub fn reset(&mut self)
        ensures
            final(self).pending_view() == old(self).pending_view() + reset_actions(),
            final(self).buffer_view() == old(self).buffer_view(),
            final(self).orient == old(self).orient,
            final(self).char_spacing == old(self).char_spacing,
            final(self).inverse == old(self).inverse,
    {
        self.pending.push(Action::SetRst(false));
        self.pending.push(Action::Settle);
        self.pending.push(Action::SetRst(true));
        proof {
            assert(self.pending@ =~= old(self).pending@ + reset_actions());
        }
    }

    /// Queue one basic command byte: mode-select low, then the byte.
    pub fn send_command(&mut self, c: u8)
        ensures
            final(self).pending_view() == old(self).pending_view() + command_actions(c),
            final(self).buffer_view() == old(self).buffer_view(),
            final(self).orient == old(self).orient,
            final(self).char_spacing == old(self).char_spacing,
            final(self).inverse == old(self).inverse,
    {
        self.pending.push(Action::SetDc(false));
        self.pending.push(Action::Write(c));
        proof {
            assert(self.pending@ =~= old(self).pending@ + command_actions(c));
        }
    }

    /// Queue one data byte: mode-select high, then the byte.
    pub fn send_data_byte(&mut self, c: u8)
        ensures
            final(self).pending_view() == old(self).pending_view() + data_actions(c),
            final(self).buffer_view() == old(self).buffer_view(),
            final(self).orient == old(self).orient,
            final(self).char_spacing == old(self).char_spacing,
            final(self).inverse == old(self).inverse,
    {
        self.pending.push(Action::SetDc(true));
        self.pending.push(Action::Write(c));
        proof {
            assert(self.pending@ =~= old(self).pending@ + data_actions(c));
        }
    }

    /// Queue one extended command: enter extended-instruction mode, send
    /// the byte, return to basic mode, restore normal display control.
    /// The restore step deliberately clobbers any custom display mode a
    /// caller had set with a bare command; this mirrors the controller
    /// discipline that extended operations are self-contained
    /// transactions.
    pub fn send_extended_command(&mut self, c: u8)
        ensures
            final(self).pending_view() == old(self).pending_view() + extended_actions(c),
            final(self).buffer_view() == old(self).buffer_view(),
            final(self).orient == old(self).orient,
            final(self).char_spacing == old(self).char_spacing,
            final(self).inverse == old(self).inverse,
    {
        self.send_command(PCD8544_FUNCTIONSET | PCD8544_EXTENDEDINSTRUCTION);
        self.send_command(c);
        self.send_command(PCD8544_FUNCTIONSET);
        self.send_command(PCD8544_DISPLAYCONTROL | PCD8544_DISPLAYNORMAL);
        proof {
            assert(self.pending@ =~= old(self).pending@ + extended_actions(c));
        }
    }

    /// Queue a contrast change, saturating the request at the
    /// controller's 7-bit maximum of 127.
    pub fn set_contrast(&mut self, contrast: u8)
        ensures
            final(self).pending_view() == old(self).pending_view() + contrast_actions(contrast),
            final(self).buffer_view() == old(self).buffer_view(),
            final(self).orient == old(self).orient,
            final(self).char_spacing == old(self).char_spacing,
            final(self).inverse == old(self).inverse,
    {
        let mut c = contrast;
        if c > 127 {
            c = 127;
        }
        self.send_extended_command(PCD8544_SETVOP | c);
    }

    /// Queue a bias change with the raw ratio code in the low bits; the
    /// caller is responsible for passing a valid small code.
    pub fn set_bias(&mut self, bias: u8)
        ensures
            final(self).pending_view() == old(self).pending_view() + bias_actions(bias),
            final(self).buffer_view() == old(self).buffer_view(),
            final(self).orient == old(self).orient,
            final(self).char_spacing == old(self).char_spacing,
            final(self).inverse == old(self).inverse,
    {
        self.send_extended_command(PCD8544_SETBIAS | bias);
    }

    /// Queue a full refresh: reset the controller's address counters to
    /// the origin, switch to data mode, and stream the whole framebuffer;
    /// the controller auto-increments its write pointer.
    pub fn update(&mut self)
        requires
            old(self).wf(),
        ensures
            final(self).wf(),
            final(self).pending_view() == old(self).pending_view() + update_actions(
                old(self).buffer_view(),
            ),
            final(self).buffer_view() == old(self).buffer_view(),
            final(self).orient == old(self).orient,
            final(self).char_spacing == old(self).char_spacing,
            final(self).inverse == old(self).inverse,
    {
        self.send_command(PCD8544_SETYADDR);
        self.send_command(PCD8544_SETXADDR);
        self.pending.push(Action::SetDc(true));
        let ghost head = old(self).pending@ + command_actions(PCD8544_SETYADDR) + command_actions(
            PCD8544_SETXADDR,
        ) + seq![Action::SetDc(true)];
        let n = self.buffer.len();
        let mut i: usize = 0;
        while i < n
            invariant
                self.wf(),
                n == BUFFER_LEN,
                i <= n,
                self.buffer@ == old(self).buffer@,
                self.orient == old(self).orient,
                self.char_spacing == old(self).char_spacing,
                self.inverse == old(self).inverse,
                self.pending@ == head + write_actions(self.buffer@.take(i as int)),
            decreases n - i,
        {
            let b = self.buffer[i];
            self.pending.push(Action::Write(b));
            proof {
                assert(write_actions(self.buffer@.take(i + 1)) =~= write_actions(
                    self.buffer@.take(i as int),
                ).push(Action::Write(self.buffer@[i as int])));
                assert(self.pending@ =~= head + write_actions(self.buffer@.take(i + 1)));
            }
            i += 1;
        }
        proof {
            assert(self.buffer@.take(n as int) =~= self.buffer@);
            assert(self.pending@ =~= old(self).pending@ + update_actions(old(self).buffer@));
        }
    }

    /// Overwrite the whole framebuffer with zero bytes.
    pub fn clear(&mut self)
        ensures
            final(self).wf(),
            final(self).buffer_view() == zero_buffer(),
            final(self).pending_view() == old(self).pending_view(),
            final(self).orient == old(self).orient,
            final(self).char_spacing == old(self).char_spacing,
            final(self).inverse == old(self).inverse,
    {
        self.buffer = zeroed_buffer();
    }

    /// Write one logical pixel.  The coordinate is transformed by the
    /// active orientation; a transformed coordinate outside the physical
    /// grid is silently dropped.  The stored bit is set when
    /// `value != inverse` and cleared otherwise.
    pub fn set_pixel(&mut self, x: usize, y: usize, value: bool)
        requires
            old(self).wf(),
        ensures
            final(self).wf(),
            final(self).buffer_view() == spec_set_pixel(
                old(self).buffer_view(),
                old(self).orient,
                old(self).inverse,
                x as int,
                y as int,
                value,
            ),
            final(self).pending_view() == old(self).pending_view(),
            final(self).orient == old(self).orient,
            final(self).char_spacing == old(self).char_spacing,
            final(self).inverse == old(self).inverse,
    {
        let p = match transform(self.orient, x, y) {
            Some(p) => p,
            None => {
                return ;
            },
        };
        let px = p.0;
        let py = p.1;
        let bv: u8 = 1u8 << ((py % 8) as u8);
        let i = px + (py / 8) * LCDWIDTH;
        proof {
            assert(0 <= (py as int) / 8 <= 5);
            assert(i as int == byte_index(px as int, py as int));
            assert(i < BUFFER_LEN);
            assert(bv == pixel_mask(py as int));
        }
        if value != self.inverse {
            let b = self.buffer[i];
            self.buffer[i] = b | bv;
        } else {
            let b = self.buffer[i];
            self.buffer[i] = b & !bv;
        }
    }

    /// Read one logical pixel's stored bit back through the same
    /// transform; out-of-range coordinates read as nothing.
    pub fn get_pixel(&self, x: usize, y: usize) -> (r: Option<bool>)
        requires
            self.wf(),
        ensures
            in_range(self.orient, x as int, y as int) ==> r == Some(
                pixel_at(self.buffer_view(), self.orient, x as int, y as int),
            ),
            !in_range(self.orient, x as int, y as int) ==> r is None,
    {
        let p = match transform(self.orient, x, y) {
            Some(p) => p,
            None => {
                return None;
            },
        };
        let px = p.0;
        let py = p.1;
        proof {
            assert(0 <= (py as int) / 8 <= 5);
            assert(px as int + ((py as int) / 8) * (LCDWIDTH as int) == byte_index(
                px as int,
                py as int,
            ));
        }
        let i = px + (py / 8) * LCDWIDTH;
        let b = self.buffer[i];
        Some(((b >> ((py % 8) as u8)) & 1) == 1)
    }

    /// Render one character at character cell `(x, y)`: the glyph of the
    /// first table entry matching the character's 16-bit code, or the
    /// fallback glyph index when it is absent.  Each glyph row byte is
    /// written as 8 pixels, most-significant bit leftmost; pixels falling
    /// outside the grid are silently dropped, and a glyph cell lying
    /// beyond the end of the bitmap draws nothing.
    pub fn print_char(&mut self, x: usize, y: usize, c: char, font: &Font)
        requires
            old(self).wf(),
            font.wf(),
        ensures
            final(self).wf(),
            final(self).buffer_view() == spec_print_char(
                old(self).buffer_view(),
                *font,
                old(self).char_spacing as int,
                old(self).orient,
                old(self).inverse,
                x as int,
                y as int,
                c,
            ),
            final(self).pending_view() == old(self).pending_view(),
            final(self).orient == old(self).orient,
            final(self).char_spacing == old(self).char_spacing,
            final(self).inverse == old(self).inverse,
    {
        let ghost buf0 = self.buffer@;
        let ghost pend0 = self.pending@;
        let ghost o = self.orient;
        let ghost inv = self.inverse;
        let ghost sp = self.char_spacing as int;

        // Index of the character in the glyph table.
        let code = char_code(c);
        let index = font.glyph_index(code);
        let bl = font.bitmap.len();
        let el = font.encoding.len();
        proof {
            if spec_position(font.encoding@, code) is Some {
                lemma_position_in_bounds(font.encoding@, code, index as int);
                assert((index as int) + 1 <= el as int);
                assert(((index as int) + 1) * (GLYPH_HEIGHT as int) <= (el as int) * (
                GLYPH_HEIGHT as int)) by (nonlinear_arith)
                    requires
                        (index as int) + 1 <= el as int,
                ;
            } else {
                assert(index == FALLBACK_GLYPH_INDEX);
            }
            assert((index as int) * (GLYPH_HEIGHT as int) + (GLYPH_HEIGHT as int) == ((index as int)
                + 1) * (GLYPH_HEIGHT as int)) by (nonlinear_arith);
        }
        let end = index * GLYPH_HEIGHT + GLYPH_HEIGHT;
        if end > bl {
            // The glyph cell lies beyond the bitmap: nothing to draw.
            return ;
        }
        let base = index * GLYPH_HEIGHT;

        // Pixel origin of the cell.  Rows or columns starting at or
        // beyond 84 are out of range under every orientation, so the
        // whole cell is dropped without touching the buffer.
        if y >= 7 {
            proof {
                assert((y as int) * (GLYPH_HEIGHT as int) >= 84);
                lemma_blit_glyph_out(
                    buf0,
                    o,
                    inv,
                    (x as int) * (GLYPH_WIDTH as int + sp),
                    (y as int) * (GLYPH_HEIGHT as int),
                    font.bitmap@,
                    (index as int) * (GLYPH_HEIGHT as int),
                    GLYPH_HEIGHT as int,
                );
            }
            return ;
        }
        let yp = y * GLYPH_HEIGHT;
        if x > 0 && (x >= LCDWIDTH || self.char_spacing >= LCDWIDTH) {
            proof {
                if x as int >= LCDWIDTH as int {
                    lemma_mul_ge(x as int, GLYPH_WIDTH as int + sp, 84, 1);
                } else {
                    lemma_mul_ge(x as int, GLYPH_WIDTH as int + sp, 1, 84);
                }
                lemma_blit_glyph_out(
                    buf0,
                    o,
                    inv,
                    (x as int) * (GLYPH_WIDTH as int + sp),
                    (y as int) * (GLYPH_HEIGHT as int),
                    font.bitmap@,
                    (index as int) * (GLYPH_HEIGHT as int),
                    GLYPH_HEIGHT as int,
                );
            }
            return ;
        }
        let xp: usize = if x == 0 {
            0
        } else {
            proof {
                lemma_mul_le(x as int, GLYPH_WIDTH as int + sp, 83, 89);
            }
            x * (GLYPH_WIDTH + self.char_spacing)
        };
        proof {
            if x == 0 {
                assert((x as int) * (GLYPH_WIDTH as int + sp) == 0) by (nonlinear_arith)
                    requires
                        x as int == 0,
                ;
            }
        }
        if xp >= LCDWIDTH {
            proof {
                lemma_blit_glyph_out(
                    buf0,
                    o,
                    inv,
                    (x as int) * (GLYPH_WIDTH as int + sp),
                    (y as int) * (GLYPH_HEIGHT as int),
                    font.bitmap@,
                    (index as int) * (GLYPH_HEIGHT as int),
                    GLYPH_HEIGHT as int,
                );
            }
            return ;
        }

        // Blit the cell row by row, 8 pixels per row.
        let mut r: usize = 0;
        while r < GLYPH_HEIGHT
            invariant
                self.wf(),
                font.wf(),
                r <= GLYPH_HEIGHT,
                base == index * GLYPH_HEIGHT,
                base + GLYPH_HEIGHT <= bl,
                bl == font.bitmap@.len(),
                xp as int == (x as int) * (GLYPH_WIDTH as int + sp),
                xp <= 83,
                yp as int == (y as int) * (GLYPH_HEIGHT as int),
                yp <= 72,
                o == self.orient,
                inv == self.inverse,
                sp == self.char_spacing as int,
                self.pending@ == pend0,
                buf0.len() == BUFFER_LEN,
                self.buffer@ == spec_blit_glyph(
                    buf0,
                    o,
                    inv,
                    xp as int,
                    yp as int,
                    font.bitmap@,
                    base as int,
                    r as int,
                ),
            decreases GLYPH_HEIGHT - r,
        {
            let b = font.bitmap[base + r];
            let ghost row0 = self.buffer@;
            let mut m: u8 = 0x80;
            proof {
                assert(0x80u8 >> 0u8 == 0x80u8) by (bit_vector);
            }
            let mut k: usize = 0;
            while k < 8
                invariant
                    self.wf(),
                    k <= 8,
                    m == 0x80u8 >> (k as u8),
                    b == font.bitmap@[base + r],
                    xp <= 83,
                    yp <= 72,
                    r < GLYPH_HEIGHT,
                    o == self.orient,
                    inv == self.inverse,
                    sp == self.char_spacing as int,
                    self.pending@ == pend0,
                    row0.len() == BUFFER_LEN,
                    self.buffer@ == spec_blit_row(
                        row0,
                        o,
                        inv,
                        xp as int,
                        (yp + r) as int,
                        b,
                        k as int,
                    ),
                decreases 8 - k,
            {
                let value = (b & m) != 0x00;
                proof {
                    assert(value == glyph_bit(b, k as int));
                }
                self.set_pixel(xp + k, yp + r, value);
                proof {
                    let ku: u8 = k as u8;
                    let kun: u8 = (k + 1) as u8;
                    assert((0x80u8 >> ku) >> 1u8 == 0x80u8 >> kun) by (bit_vector)
                        requires
                            ku < 8,
                            kun == ku + 1,
                    ;
                }
                m = m >> 1;
                k += 1;
            }
            r += 1;
        }
        proof {
            assert(self.buffer@ == spec_print_char(buf0, *font, sp, o, inv, x as int, y as int, c));
        }
    }

    /// Render a string from character cell `(x, y)`: characters are
    /// placed left to right; when the next cell would pass the right
    /// edge the cursor wraps to column 0 of the next row, and when that
    /// next row would pass the bottom edge the remaining characters are
    /// silently dropped.
    pub fn print(&mut self, x: usize, y: usize, s: &str, font: &Font)
        requires
            old(self).wf(),
            font.wf(),
        ensures
            final(self).wf(),
            final(self).buffer_view() == spec_print(
                old(self).buffer_view(),
                *font,
                old(self).char_spacing as int,
                old(self).orient,
                old(self).inverse,
                x as int,
                y as int,
                s@,
            ),
            final(self).pending_view() == old(self).pending_view(),
            final(self).orient == old(self).orient,
            final(self).char_spacing == old(self).char_spacing,
            final(self).inverse == old(self).inverse,
    {
        let ghost buf0 = self.buffer@;
        let ghost pend0 = self.pending@;
        let ghost o = self.orient;
        let ghost inv = self.inverse;
        let ghost sp = self.char_spacing as int;

        let chars = collect_chars(s);
        proof {
            assert(s@.skip(0) =~= s@);
        }
        let mut xc = x;
        let mut yc = y;
        let mut stopped = false;
        let mut i: usize = 0;
        while i < chars.len() && !stopped
            invariant
                self.wf(),
                font.wf(),
                i <= chars@.len(),
                chars@ == s@,
                o == self.orient,
                inv == self.inverse,
                sp == self.char_spacing as int,
                self.pending@ == pend0,
                spec_print(buf0, *font, sp, o, inv, x as int, y as int, s@) == (if stopped {
                    self.buffer@
                } else {
                    spec_print(self.buffer@, *font, sp, o, inv, xc as int, yc as int, s@.skip(i as int))
                }),
            decreases chars@.len() - i,
        {
            let ghost tail = s@.skip(i as int);
            assert(tail[0] == s@[i as int]);
            let c = chars[i];
            self.print_char(xc, yc, c, font);
            proof {
                assert(s@.skip(i as int).drop_first() =~= s@.skip(i as int + 1));
            }
            i += 1;
            let wrap: bool;
            if xc >= LCDWIDTH {
                proof {
                    lemma_mul_ge(xc as int + 1, GLYPH_WIDTH as int + sp, 85, 1);
                }
                wrap = true;
            } else if self.char_spacing >= LCDWIDTH {
                proof {
                    lemma_mul_ge(xc as int + 1, GLYPH_WIDTH as int + sp, 1, 84);
                }
                wrap = true;
            } else {
                proof {
                    lemma_mul_le(xc as int + 1, GLYPH_WIDTH as int + sp, 84, 89);
                }
                wrap = (xc + 1) * (GLYPH_WIDTH + self.char_spacing) >= LCDWIDTH;
            }
            proof {
                assert(wrap == spec_wraps(sp, xc as int + 1));
            }
            if wrap {
                xc = 0;
                if yc >= 3 {
                    proof {
                        assert(spec_stops(yc as int + 1));
                    }
                    stopped = true;
                } else {
                    proof {
                        assert(!spec_stops(yc as int + 1));
                    }
                    yc += 1;
                }
            } else {
                xc += 1;
            }
        }
        proof {
            if !stopped {
                assert(s@.skip(i as int) =~= Seq::<char>::empty());
            }
        }
    }

    /// The raw framebuffer bytes.
    pub fn buffer_bytes(&self) -> (r: &Vec<u8>)
        ensures
            r@ == self.buffer_view(),
    {
        &self.buffer
    }
}

/// The characters of a string, in order.
fn collect_chars(s: &str) -> (v: Vec<char>)
    ensures
        v@ == s@,
{
    let mut v: Vec<char> = Vec::new();
    for c in it: s.chars()
        invariant
            it.seq() == s@,
            v@ == it.seq().take(it.index() as int),
    {
        v.push(c);
    }
    proof {
        assert(v@ =~= s@);
    }
    v
}

/// Physical coordinates of logical `(x, y)` under `o`, or nothing when
/// the transform leaves the physical grid.
fn transform(o: Orientation, x: usize, y: usize) -> (r: Option<(usize, usize)>)
    ensures
        match r {
            Some(p) => in_range(o, x as int, y as int) && p.0 as int == phys(
                o,
                x as int,
                y as int,
            ).0 && p.1 as int == phys(o, x as int, y as int).1,
            None => !in_range(o, x as int, y as int),
        },
{
    let p: (usize, usize) = match o {
        Orientation::Landscape(false) => (x, y),
        Orientation::Portrait(false) => {
            if y >= LCDWIDTH {
                return None;
            }
            (LCDWIDTH - 1 - y, x)
        },
        Orientation::Landscape(true) => {
            if x >= LCDHEIGHT {
                return None;
            }
            (y, LCDHEIGHT - 1 - x)
        },
        Orientation::Portrait(true) => {
            if x >= LCDWIDTH || y >= LCDHEIGHT {
                return None;
            }
            (LCDWIDTH - 1 - x, LCDHEIGHT - 1 - y)
        },
    };
    if p.0 >= LCDWIDTH || p.1 >= LCDHEIGHT {
        return None;
    }
    Some(p)
}

} // verus!
